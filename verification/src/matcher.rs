//! The line matcher: splits a text body into lines and returns, in order,
//! the lines that contain a literal pattern as a substring.
//!
//! Line splitting follows the platform-independent convention: a line ends
//! at `'\n'`, and a `'\r'` immediately before the `'\n'` is not part of the
//! line. A final line without a terminator is kept as it stands, and a
//! trailing terminator does not add an empty final line.

use vstd::prelude::*;
use vstd::string::StrSliceExecFns;

verus! {

/// The index of the first `'\n'` in `s`, or `s.len()` if there is none.
pub open spec fn first_newline(s: Seq<char>) -> int
    decreases s.len(),
{
    if s.len() == 0 {
        0
    } else if s[0] == '\n' {
        0
    } else {
        1 + first_newline(s.subrange(1, s.len() as int))
    }
}

/// A line with a trailing carriage return removed, as the `"\r\n"` line
/// terminator asks; any other line is unchanged.
pub open spec fn strip_cr(l: Seq<char>) -> Seq<char> {
    if l.len() > 0 && l[l.len() - 1] == '\r' {
        l.drop_last()
    } else {
        l
    }
}

/// The lines of `s`: the maximal `'\n'`-free pieces, each with a carriage
/// return before its terminator removed. The final terminator is optional,
/// and an empty text has no lines.
pub open spec fn spec_lines(s: Seq<char>) -> Seq<Seq<char>>
    decreases s.len(),
{
    if s.len() == 0 {
        Seq::empty()
    } else {
        let k = first_newline(s);
        if 0 <= k && k < s.len() {
            seq![strip_cr(s.subrange(0, k))] + spec_lines(s.subrange(k + 1, s.len() as int))
        } else {
            seq![s]
        }
    }
}

/// `p` occurs in `l` starting exactly at index `i`.
pub open spec fn contains_at(l: Seq<char>, p: Seq<char>, i: int) -> bool {
    0 <= i && i + p.len() <= l.len() && l.subrange(i, i + p.len() as int) == p
}

/// `p` occurs somewhere in `l` as a contiguous substring. The empty pattern
/// occurs in every line.
pub open spec fn is_substring(p: Seq<char>, l: Seq<char>) -> bool {
    exists|i: int| contains_at(l, p, i)
}

/// The lines among `lines` that contain `p`, in their original order.
pub open spec fn matching_lines(lines: Seq<Seq<char>>, p: Seq<char>) -> Seq<Seq<char>> {
    lines.filter(|l: Seq<char>| is_substring(p, l))
}

/// The views of a sequence of owned lines.
pub open spec fn views(lines: Seq<String>) -> Seq<Seq<char>> {
    lines.map_values(|l: String| l@)
}

proof fn lemma_views_push(lines: Seq<String>, l: String)
    ensures
        views(lines.push(l)) == views(lines).push(l@),
{
    assert(views(lines.push(l)) =~= views(lines).push(l@));
}

proof fn lemma_first_newline_at(s: Seq<char>, k: int)
    requires
        0 <= k <= s.len(),
        forall|j: int| 0 <= j < k ==> s[j] != '\n',
        k < s.len() ==> s[k] == '\n',
    ensures
        first_newline(s) == k,
    decreases k,
{
    if k > 0 {
        let t = s.subrange(1, s.len() as int);
        lemma_first_newline_at(t, k - 1);
    }
}

/// Unfolds `spec_lines` at its first line: `k` marks the first newline of
/// `s`, or its end if there is none.
proof fn lemma_spec_lines_step(s: Seq<char>, k: int)
    requires
        0 <= k <= s.len(),
        forall|j: int| 0 <= j < k ==> s[j] != '\n',
        k < s.len() ==> s[k] == '\n',
    ensures
        k < s.len() ==> spec_lines(s) == seq![strip_cr(s.subrange(0, k))] + spec_lines(
            s.subrange(k + 1, s.len() as int),
        ),
        k == s.len() && s.len() > 0 ==> spec_lines(s) == seq![s],
{
    lemma_first_newline_at(s, k);
}

/// Splits a text into its lines, each owned, in their original order.
pub fn split_lines(content: &str) -> (r: Vec<String>)
    ensures
        views(r@) == spec_lines(content@),
{
    let n = content.unicode_len();
    let mut r: Vec<String> = Vec::new();
    let mut pos: usize = 0;
    proof {
        assert(views(r@) =~= Seq::<Seq<char>>::empty());
        assert(content@.subrange(0, n as int) =~= content@);
        assert(Seq::<Seq<char>>::empty() + spec_lines(content@) =~= spec_lines(content@));
    }
    while pos < n
        invariant
            pos <= n,
            n == content@.len(),
            spec_lines(content@) == views(r@) + spec_lines(
                content@.subrange(pos as int, n as int),
            ),
        decreases n - pos,
    {
        let ghost suffix = content@.subrange(pos as int, n as int);
        let mut k: usize = pos;
        while k < n && content.get_char(k) != '\n'
            invariant
                pos <= k <= n,
                n == content@.len(),
                forall|j: int| pos <= j < k ==> content@[j] != '\n',
            decreases n - k,
        {
            k = k + 1;
        }
        proof {
            assert forall|j: int| 0 <= j < k - pos implies suffix[j] != '\n' by {
                assert(suffix[j] == content@[pos + j]);
            }
            if (k as int) - (pos as int) < suffix.len() {
                assert(suffix[k - pos] == content@[k as int]);
            }
            lemma_spec_lines_step(suffix, k as int - pos as int);
        }
        let end: usize = if k > pos && content.get_char(k - 1) == '\r' {
            k - 1
        } else {
            k
        };
        proof {
            let piece = suffix.subrange(0, k as int - pos as int);
            assert(piece =~= content@.subrange(pos as int, k as int));
            if k > pos && content@[k as int - 1] == '\r' {
                assert(piece[piece.len() - 1] == content@[k as int - 1]);
                assert(strip_cr(piece) =~= content@.subrange(pos as int, end as int));
            } else {
                if piece.len() > 0 {
                    assert(piece[piece.len() - 1] == content@[k as int - 1]);
                }
                assert(strip_cr(piece) =~= content@.subrange(pos as int, end as int));
            }
        }
        if k == n {
            // No terminator: the final line is the rest of the text, unchanged.
            let line = content.substring_char(pos, n);
            let owned = line.to_owned();
            let ghost r0 = r@;
            r.push(owned);
            proof {
                lemma_views_push(r0, owned);
                assert(owned@ =~= suffix);
                assert(spec_lines(content@.subrange(n as int, n as int))
                    =~= Seq::<Seq<char>>::empty());
                assert(views(r0).push(suffix) + Seq::<Seq<char>>::empty() =~= views(r0) + seq![
                    suffix,
                ]);
                assert(spec_lines(suffix) == seq![suffix]);
            }
            pos = n;
        } else {
            let line = content.substring_char(pos, end);
            let owned = line.to_owned();
            let ghost r0 = r@;
            r.push(owned);
            proof {
                lemma_views_push(r0, owned);
                let piece = suffix.subrange(0, k as int - pos as int);
                assert(owned@ == strip_cr(piece));
                assert(suffix.subrange(k as int - pos as int + 1, suffix.len() as int)
                    =~= content@.subrange(k as int + 1, n as int));
                assert(views(r0).push(strip_cr(piece)) + spec_lines(
                    content@.subrange(k as int + 1, n as int),
                ) =~= views(r0) + (seq![strip_cr(piece)] + spec_lines(
                    content@.subrange(k as int + 1, n as int),
                )));
            }
            pos = k + 1;
        }
    }
    proof {
        assert(content@.subrange(n as int, n as int) =~= Seq::<char>::empty());
        assert(spec_lines(Seq::<char>::empty()) == Seq::<Seq<char>>::empty());
        assert(views(r@) + Seq::<Seq<char>>::empty() =~= views(r@));
    }
    r
}

fn match_at(line: &str, pattern: &str, i: usize) -> (r: bool)
    requires
        i + pattern@.len() <= line@.len(),
        line@.len() <= usize::MAX,
    ensures
        r == contains_at(line@, pattern@, i as int),
{
    let m = pattern.unicode_len();
    let mut k: usize = 0;
    while k < m
        invariant
            k <= m,
            m == pattern@.len(),
            i + m <= line@.len(),
            line@.len() <= usize::MAX,
            forall|t: int| 0 <= t < k ==> line@[i + t] == pattern@[t],
        decreases m - k,
    {
        if line.get_char(i + k) != pattern.get_char(k) {
            proof {
                if contains_at(line@, pattern@, i as int) {
                    assert(line@.subrange(i as int, i + m as int)[k as int] == line@[i + k]);
                }
            }
            return false;
        }
        k = k + 1;
    }
    proof {
        assert(line@.subrange(i as int, i + m as int) =~= pattern@);
    }
    true
}

/// Decides literal substring containment of `pattern` in `line`.
pub fn contains_pattern(line: &str, pattern: &str) -> (r: bool)
    ensures
        r == is_substring(pattern@, line@),
{
    let n = line.unicode_len();
    let m = pattern.unicode_len();
    if m > n {
        proof {
            assert forall|i: int| !contains_at(line@, pattern@, i) by {}
        }
        return false;
    }
    if m == 0 {
        proof {
            assert(line@.subrange(0, 0) =~= pattern@);
            assert(contains_at(line@, pattern@, 0));
        }
        return true;
    }
    let mut i: usize = 0;
    while i <= n - m
        invariant
            1 <= m <= n,
            i <= n - m + 1,
            n == line@.len(),
            m == pattern@.len(),
            forall|j: int| 0 <= j < i ==> !contains_at(line@, pattern@, j),
        decreases n - m - i + 1,
    {
        if match_at(line, pattern, i) {
            return true;
        }
        i = i + 1;
    }
    proof {
        assert forall|j: int| !contains_at(line@, pattern@, j) by {
            if 0 <= j && j + m <= n {
                assert(j < i);
            }
        }
    }
    false
}

/// A text body: an ordered sequence of lines, immutable once built.
pub struct Text {
    pub lines: Vec<String>,
}

impl View for Text {
    type V = Seq<Seq<char>>;

    open spec fn view(&self) -> Seq<Seq<char>> {
        views(self.lines@)
    }
}

impl Text {
    /// Builds a text body by splitting `content` into its lines.
    pub fn from_content(content: &str) -> (t: Text)
        ensures
            t@ == spec_lines(content@),
    {
        Text { lines: split_lines(content) }
    }

    /// The number of lines of the text.
    pub fn line_count(&self) -> (c: usize)
        ensures
            c == self@.len(),
    {
        self.lines.len()
    }
}

/// The subsequence of the text's lines that contain the pattern, each
/// emitted unchanged and in its original order. The text is only read.
pub fn find_matches(text: &Text, pattern: &str) -> (r: Vec<String>)
    ensures
        views(r@) == matching_lines(text@, pattern@),
{
    let mut r: Vec<String> = Vec::new();
    let mut idx: usize = 0;
    proof {
        assert(views(r@) =~= Seq::<Seq<char>>::empty());
        assert(text@.subrange(0, 0) =~= Seq::<Seq<char>>::empty());
        lemma_matching_lines_empty(pattern@);
    }
    while idx < text.lines.len()
        invariant
            idx <= text.lines@.len(),
            text@ == views(text.lines@),
            views(r@) == matching_lines(text@.subrange(0, idx as int), pattern@),
        decreases text.lines@.len() - idx,
    {
        let line = &text.lines[idx];
        let matched = contains_pattern(line.as_str(), pattern);
        proof {
            assert(line@ == text@[idx as int]);
            lemma_matching_lines_push(text@.subrange(0, idx as int), text@[idx as int], pattern@);
            assert(text@.subrange(0, idx as int).push(text@[idx as int]) =~= text@.subrange(
                0,
                idx as int + 1,
            ));
        }
        if matched {
            let owned = line.clone();
            let ghost r0 = r@;
            r.push(owned);
            proof {
                lemma_views_push(r0, owned);
            }
        }
        idx = idx + 1;
    }
    proof {
        assert(text@.subrange(0, text.lines@.len() as int) =~= text@);
    }
    r
}

/// `a` can be read off `b` left to right: `a` keeps a selection of `b`'s
/// elements in `b`'s order.
pub open spec fn is_subsequence_of<A>(a: Seq<A>, b: Seq<A>) -> bool
    decreases b.len(),
{
    if a.len() == 0 {
        true
    } else if b.len() == 0 {
        false
    } else if a.last() == b.last() {
        is_subsequence_of(a.drop_last(), b.drop_last())
    } else {
        is_subsequence_of(a, b.drop_last())
    }
}

proof fn lemma_subseq_weaken_push<A>(a: Seq<A>, b: Seq<A>, x: A)
    requires
        is_subsequence_of(a, b),
    ensures
        is_subsequence_of(a, b.push(x)),
    decreases b.len(), 1int,
{
    if a.len() > 0 {
        assert(b.push(x).last() == x);
        assert(b.push(x).drop_last() =~= b);
        if a.last() == x {
            lemma_subseq_drop_last(a, b);
        }
    }
}

proof fn lemma_subseq_drop_last<A>(a: Seq<A>, b: Seq<A>)
    requires
        a.len() > 0,
        is_subsequence_of(a, b),
    ensures
        is_subsequence_of(a.drop_last(), b),
    decreases b.len(), 0int,
{
    if a.last() == b.last() {
        lemma_subseq_weaken_push(a.drop_last(), b.drop_last(), b.last());
        assert(b.drop_last().push(b.last()) =~= b);
    } else {
        lemma_subseq_drop_last(a, b.drop_last());
        if a.drop_last().len() > 0 && a.drop_last().last() == b.last() {
            lemma_subseq_drop_last(a.drop_last(), b.drop_last());
        }
    }
}

proof fn lemma_filter_is_subsequence<A>(s: Seq<A>, pred: spec_fn(A) -> bool)
    ensures
        is_subsequence_of(s.filter(pred), s),
    decreases s.len(),
{
    reveal(Seq::filter);
    if s.len() > 0 {
        lemma_filter_is_subsequence(s.drop_last(), pred);
        let f = s.filter(pred);
        if pred(s.last()) {
            assert(f == s.drop_last().filter(pred).push(s.last()));
            assert(f.drop_last() =~= s.drop_last().filter(pred));
        } else {
            lemma_subseq_weaken_push(f, s.drop_last(), s.last());
            assert(s.drop_last().push(s.last()) =~= s);
        }
    }
}

/// Law: every line found contains the pattern as a substring, and the
/// matches keep the text's own relative order, being a subsequence of its
/// lines.
pub proof fn lemma_find_matches_sound(lines: Seq<Seq<char>>, p: Seq<char>)
    ensures
        forall|i: int|
            0 <= i < matching_lines(lines, p).len() ==> is_substring(
                p,
                #[trigger] matching_lines(lines, p)[i],
            ),
        is_subsequence_of(matching_lines(lines, p), lines),
{
    broadcast use vstd::seq_lib::group_filter_ensures;

    lemma_filter_is_subsequence(lines, |l: Seq<char>| is_substring(p, l));
}

/// Law: with the empty pattern, every line of the text matches, so the
/// result is the text's lines unchanged.
pub proof fn lemma_empty_pattern_matches_all(lines: Seq<Seq<char>>)
    ensures
        matching_lines(lines, Seq::<char>::empty()) == lines,
    decreases lines.len(),
{
    reveal(Seq::filter);
    if lines.len() > 0 {
        lemma_empty_pattern_matches_all(lines.drop_last());
        assert(lines.last().subrange(0, 0) =~= Seq::<char>::empty());
        assert(contains_at(lines.last(), Seq::<char>::empty(), 0));
        assert(lines.drop_last().push(lines.last()) =~= lines);
    }
}

proof fn lemma_matching_lines_empty(p: Seq<char>)
    ensures
        matching_lines(Seq::<Seq<char>>::empty(), p) == Seq::<Seq<char>>::empty(),
{
    reveal(Seq::filter);
}

proof fn lemma_matching_lines_push(lines: Seq<Seq<char>>, x: Seq<char>, p: Seq<char>)
    ensures
        is_substring(p, x) ==> matching_lines(lines.push(x), p) == matching_lines(lines, p).push(
            x,
        ),
        !is_substring(p, x) ==> matching_lines(lines.push(x), p) == matching_lines(lines, p),
{
    reveal(Seq::filter);
    assert(lines.push(x).drop_last() =~= lines);
    assert(lines.push(x).last() == x);
}

} // verus!

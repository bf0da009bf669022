use grepcells::matcher::{contains_pattern, find_matches, split_lines, Text};

fn text_of(content: &str) -> Text {
    Text::from_content(content)
}

#[test]
fn split_plain_newlines() {
    let lines = split_lines("alpha\nbeta\ngamma");
    assert_eq!(lines, vec![
        String::from("alpha"),
        String::from("beta"),
        String::from("gamma"),
    ]);
}

#[test]
fn split_strips_carriage_return_before_newline() {
    let lines = split_lines("alpha\r\nbeta\r\n");
    assert_eq!(lines, vec![String::from("alpha"), String::from("beta")]);
}

#[test]
fn split_trailing_newline_adds_no_line() {
    let lines = split_lines("alpha\nbeta\n");
    assert_eq!(lines, vec![String::from("alpha"), String::from("beta")]);
}

#[test]
fn split_empty_text_has_no_lines() {
    let lines = split_lines("");
    assert_eq!(lines, Vec::<String>::new());
}

#[test]
fn split_keeps_empty_middle_lines() {
    let lines = split_lines("a\n\nb");
    assert_eq!(lines, vec![
        String::from("a"),
        String::from(""),
        String::from("b"),
    ]);
}

#[test]
fn split_keeps_bare_carriage_return_in_final_line() {
    let lines = split_lines("a\nb\r");
    assert_eq!(lines, vec![String::from("a"), String::from("b\r")]);
}

#[test]
fn contains_finds_inner_substring() {
    assert!(contains_pattern("lorem ipsum", "em ip"));
    assert!(contains_pattern("lorem ipsum", "lorem"));
    assert!(contains_pattern("lorem ipsum", "ipsum"));
    assert!(!contains_pattern("lorem ipsum", "lorep"));
    assert!(!contains_pattern("abc", "abcd"));
}

#[test]
fn contains_empty_pattern_always() {
    assert!(contains_pattern("anything", ""));
    assert!(contains_pattern("", ""));
}

#[test]
fn find_matches_keeps_matching_lines_in_order() {
    let text = text_of("first line\nsecond text\nthird line\nline four\n");
    let found = find_matches(&text, "line");
    assert_eq!(found, vec![
        String::from("first line"),
        String::from("third line"),
        String::from("line four"),
    ]);
    for line in &found {
        assert!(line.contains("line"));
    }
}

#[test]
fn find_matches_empty_pattern_returns_every_line() {
    let text = text_of("one\ntwo\nthree");
    let found = find_matches(&text, "");
    assert_eq!(found, vec![
        String::from("one"),
        String::from("two"),
        String::from("three"),
    ]);
}

#[test]
fn find_matches_leaves_text_unchanged() {
    let text = text_of("keep\nme\nkeep");
    let before = text.lines.clone();
    let _ = find_matches(&text, "keep");
    assert_eq!(text.lines, before);
}

#[test]
fn find_matches_nothing_on_no_match() {
    let text = text_of("one\ntwo");
    let found = find_matches(&text, "zzz");
    assert_eq!(found, Vec::<String>::new());
}

#[test]
fn find_matches_emits_lines_untrimmed() {
    let text = text_of("  padded match  \nno hit\n");
    let found = find_matches(&text, "match");
    assert_eq!(found, vec![String::from("  padded match  ")]);
}

#[test]
fn line_count_counts_lines() {
    let text = text_of("a\nb\nc\n");
    assert_eq!(text.line_count(), 3);
}

//! A small numeric pipeline: keep the even values of a sequence and square
//! each of them, the squares wrapping modulo 256 as all arithmetic of this
//! library does.

use crate::cells::wrap_mul;
use vstd::prelude::*;

verus! {

/// The even values of `s`, in order, each replaced by its wrapping square.
pub open spec fn even_squares_spec(s: Seq<u8>) -> Seq<u8>
    decreases s.len(),
{
    if s.len() == 0 {
        Seq::empty()
    } else {
        let rest = even_squares_spec(s.drop_last());
        if s.last() % 2 == 0 {
            rest.push(wrap_mul(s.last(), s.last()))
        } else {
            rest
        }
    }
}

/// Keeps the even values of `v`, squaring each (wrapping modulo 256).
pub fn even_squares(v: &Vec<u8>) -> (r: Vec<u8>)
    ensures
        r@ == even_squares_spec(v@),
{
    let mut r: Vec<u8> = Vec::new();
    let mut i: usize = 0;
    proof {
        assert(v@.subrange(0, 0) =~= Seq::<u8>::empty());
    }
    while i < v.len()
        invariant
            i <= v@.len(),
            r@ == even_squares_spec(v@.subrange(0, i as int)),
        decreases v@.len() - i,
    {
        let x = v[i];
        if x % 2 == 0 {
            r.push(x.wrapping_mul(x));
        }
        proof {
            assert(v@.subrange(0, i as int + 1).drop_last() =~= v@.subrange(0, i as int));
            assert(v@.subrange(0, i as int + 1).last() == v@[i as int]);
        }
        i = i + 1;
    }
    proof {
        assert(v@.subrange(0, v@.len() as int) =~= v@);
    }
    r
}

} // verus!

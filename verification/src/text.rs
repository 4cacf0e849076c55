//! Comparing texts character by character.

use vstd::prelude::*;
use vstd::std_specs::iter::IteratorSpec;

verus! {

/// Whether two texts hold the same characters in the same order.
pub fn same_text(left: &str, right: &str) -> (same: bool)
    ensures
        same == (left@ == right@),
{
    broadcast use vstd::string::group_string_axioms;

    let mut a = left.chars();
    let mut b = right.chars();
    let ghost mut seen: Seq<char> = Seq::empty();
    loop
        invariant
            left@ == seen + a.remaining(),
            right@ == seen + b.remaining(),
            a.decrease() is Some,
        decreases a.decrease()->0,
    {
        let x = a.next();
        let y = b.next();
        match (x, y) {
            (None, None) => {
                return true;
            },
            (Some(c), Some(d)) => {
                if c != d {
                    assert(left@[seen.len() as int] == c);
                    assert(right@[seen.len() as int] == d);
                    return false;
                }
                proof {
                    seen = seen.push(c);
                }
            },
            _ => {
                assert(left@.len() != right@.len());
                return false;
            },
        }
    }
}

} // verus!

//! Host list helpers.

use vstd::prelude::*;

use crate::text::{chars_of, slice, string_of};

verus! {

/// The first `max` characters of `s` (all of it when shorter).
pub open spec fn truncated(s: Seq<char>, max: nat) -> Seq<char> {
    if s.len() <= max {
        s
    } else {
        s.take(max as int)
    }
}

/// Truncates a string to at most `max` characters.
pub fn truncate(s: &str, max: usize) -> (r: String)
    ensures
        r@ == truncated(s@, max as nat),
{
    let v = chars_of(s);
    if v.len() <= max {
        return string_of(&v);
    }
    let t = slice(&v, 0, max);
    assert(t@ == v@.take(max as int));
    string_of(&t)
}


/// Truncation keeps the text's first `min(len, max)` characters.
pub proof fn lemma_truncated_shape(s: Seq<char>, max: nat)
    ensures
        truncated(s, max).len() == (if s.len() < max {
            s.len()
        } else {
            max
        }),
        forall|i: int| 0 <= i < truncated(s, max).len() ==> #[trigger] truncated(s, max)[i] == s[i],
{
}

} // verus!

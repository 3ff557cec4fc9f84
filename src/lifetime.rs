//! Choosing between two borrowed strings.

use vstd::prelude::*;

verus! {

/// The longer of two strings by length in bytes; the first on a tie.
pub fn longest<'a>(first: &'a str, second: &'a str) -> (r: &'a str)
    ensures
        r == if first.len() >= second.len() {
            first
        } else {
            second
        },
{
    if first.len() >= second.len() {
        first
    } else {
        second
    }
}

} // verus!

//! Primitive values and a first formatted string.

use vstd::prelude::*;
use crate::text::{debug_text, push_signed_decimal, push_str, quoted, signed_decimal};

verus! {

/// Always `false`.
pub fn get_false() -> (r: bool)
    ensures
        r == false,
{
    false
}

/// Always 42.
pub fn get_42i32() -> (r: i32)
    ensures
        r == 42,
{
    42
}

/// The unit value.
pub fn get_unit() {
}

/// The sum of a byte and a 16-bit number, which always fits 32 bits.
pub fn add(left: u8, right: u16) -> (r: u32)
    ensures
        r == left + right,
{
    left as u32 + right as u32
}

/// The quoted context, then ` debug: `, then the number in decimal.
pub open spec fn debug_line(num: int, context: Seq<char>) -> Seq<char> {
    debug_text(context) + " debug: "@ + signed_decimal(num)
}

/// A debug line for `num` in the given context.
pub fn get_debug(num: i64, debug_string: &str) -> (r: String)
    ensures
        r@ == debug_line(num as int, debug_string@),
{
    let mut out = quoted(debug_string);
    push_str(&mut out, " debug: ");
    push_signed_decimal(&mut out, num);
    proof {
        assert(out@ =~= debug_line(num as int, debug_string@));
    }
    out
}

} // verus!

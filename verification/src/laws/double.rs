//! Laws of double-precision numbers, over their bit patterns.

use crate::double::{at_least, clamp_unit};
use vstd::prelude::*;

verus! {

/// A pattern that is that of a number: at most an infinity, of either sign.
pub open spec fn is_number(bits: u64) -> bool {
    bits <= 0x7FF0_0000_0000_0000 || 0x8000_0000_0000_0000 <= bits <= 0xFFF0_0000_0000_0000
}

/// Numbers are ordered by size: without the sign bit by their patterns, with it against them,
/// and one with it below one without it, but that the two zeros are equal. What is no number
/// has no place among them.
pub proof fn law_order_of_patterns(a: u64, b: u64)
    ensures
        !is_number(a) || !is_number(b) ==> !at_least(a, b),
        is_number(a) && is_number(b) ==> at_least(a, b) == if a < 0x8000_0000_0000_0000 {
            if b < 0x8000_0000_0000_0000 {
                a >= b
            } else {
                true
            }
        } else if b < 0x8000_0000_0000_0000 {
            a == 0x8000_0000_0000_0000 && b == 0
        } else {
            a <= b
        },
{
}

/// A number within the range from 0 to 1 stays, one above it becomes 1, and one below it 0.
pub proof fn law_clamp_moves_to_the_nearer_end(bits: u64)
    ensures
        bits <= 0x3FF0_0000_0000_0000 ==> clamp_unit(bits) == bits,
        0x3FF0_0000_0000_0000 < bits <= 0x7FF0_0000_0000_0000 ==> clamp_unit(bits)
            == 0x3FF0_0000_0000_0000,
        bits == 0x8000_0000_0000_0000 ==> clamp_unit(bits) == bits,
        0x8000_0000_0000_0000 < bits <= 0xFFF0_0000_0000_0000 ==> clamp_unit(bits) == 0,
{
}

} // verus!

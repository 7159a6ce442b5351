//! Double-precision numbers, held by their bit pattern.
//!
//! A confidence is only ever compared and clamped, never computed with. The bit pattern
//! of an IEEE 754 double is enough for both: below the sign bit it grows with the
//! number's distance from zero.

use vstd::prelude::*;

verus! {

/// The bit that is set in negative numbers.
pub const SIGN: u64 = 0x8000_0000_0000_0000;

/// The pattern of positive infinity. Past it, up to the sign bit, lie the NaNs.
pub const INFINITY: u64 = 0x7FF0_0000_0000_0000;

/// The pattern of `1.0`.
pub const ONE: u64 = 0x3FF0_0000_0000_0000;

/// A double-precision number, by its IEEE 754 bit pattern.
#[derive(Clone, Copy, Debug, PartialEq, Eq, Structural)]
pub struct Double {
    pub bits: u64,
}

/// The pattern without its sign bit.
pub open spec fn magnitude(bits: u64) -> int {
    if bits < SIGN {
        bits as int
    } else {
        bits - SIGN
    }
}

/// The pattern is that of no number.
pub open spec fn nan(bits: u64) -> bool {
    magnitude(bits) > INFINITY
}

/// The place of a number among the doubles: it grows with the number, and is 0 for both zeros.
pub open spec fn rank(bits: u64) -> int {
    if bits < SIGN {
        bits as int
    } else {
        -magnitude(bits)
    }
}

/// The number of pattern `a` is at least that of pattern `b`. Where either is no number, it is not.
pub open spec fn at_least(a: u64, b: u64) -> bool {
    !nan(a) && !nan(b) && rank(a) >= rank(b)
}

/// The number of pattern `bits`, moved to the nearer end of the range from 0 to 1 where it
/// lies outside.
pub open spec fn clamp_unit(bits: u64) -> u64 {
    if nan(bits) {
        bits
    } else if rank(bits) < 0 {
        0
    } else if rank(bits) > ONE {
        ONE
    } else {
        bits
    }
}

impl Double {
    fn is_nan(self) -> (r: bool)
        ensures
            r == nan(self.bits),
    {
        if self.bits < SIGN {
            self.bits > INFINITY
        } else {
            self.bits - SIGN > INFINITY
        }
    }

    fn rank(self) -> (r: i128)
        ensures
            r == rank(self.bits),
    {
        if self.bits < SIGN {
            self.bits as i128
        } else {
            -((self.bits - SIGN) as i128)
        }
    }

    /// Whether this number is at least `other`.
    pub fn at_least(self, other: Double) -> (r: bool)
        ensures
            r == at_least(self.bits, other.bits),
    {
        !self.is_nan() && !other.is_nan() && self.rank() >= other.rank()
    }

    /// This number, moved to the nearer end of the range from 0 to 1 where it lies outside.
    pub fn clamp_unit(self) -> (r: Double)
        ensures
            r.bits == clamp_unit(self.bits),
    {
        if self.is_nan() {
            self
        } else if self.rank() < 0 {
            Double { bits: 0 }
        } else if self.rank() > ONE as i128 {
            Double { bits: ONE }
        } else {
            self
        }
    }
}

/// A clamped number lies between 0 and 1.
pub proof fn law_clamp_in_unit(bits: u64)
    requires
        !nan(bits),
    ensures
        at_least(clamp_unit(bits), 0),
        at_least(ONE, clamp_unit(bits)),
        at_least(bits, 0) && at_least(ONE, bits) ==> clamp_unit(bits) == bits,
{
}

} // verus!

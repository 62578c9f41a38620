//! Session gain as the bit pattern of an IEEE-754 single-precision number.
//!
//! The mixer hands a gain that was read through unchanged, and brings a gain
//! that is to be written into the range from zero to one. For that it only ever
//! compares a gain with zero and one, so the bit pattern is all it needs: `rank`
//! orders the patterns as the numbers are ordered.

use vstd::prelude::*;

verus! {

/// The sign bit of a pattern.
pub const SIGN_BIT: u32 = 0x8000_0000;

/// The pattern of positive infinity; every larger magnitude is not a number.
pub const INFINITY_BITS: u32 = 0x7F80_0000;

/// The pattern of `1.0`.
pub const ONE_BITS: u32 = 0x3F80_0000;

/// The pattern of `0.0`.
pub const ZERO_BITS: u32 = 0;

/// A scalar gain, held as its bit pattern.
#[derive(Clone, Copy, Debug, PartialEq, Eq, Structural)]
pub struct Volume {
    pub bits: u32,
}

impl Volume {
    /// The pattern without its sign bit.
    pub open spec fn magnitude(self) -> int {
        if self.bits >= SIGN_BIT {
            self.bits - SIGN_BIT
        } else {
            self.bits as int
        }
    }

    /// The pattern stands for no number.
    pub open spec fn is_nan(self) -> bool {
        self.magnitude() > INFINITY_BITS
    }

    /// Where the number stands in the order of all numbers: of two patterns that
    /// are numbers, the smaller number has the smaller rank, and both zeros have
    /// rank zero.
    pub open spec fn rank(self) -> int {
        if self.bits >= SIGN_BIT {
            -self.magnitude()
        } else {
            self.magnitude()
        }
    }

    /// The number lies between zero and one, both included.
    pub open spec fn in_unit_range(self) -> bool {
        !self.is_nan() && 0 <= self.rank() <= ONE_BITS
    }

    /// The gain that is written for a requested gain: zero for a number below
    /// zero, one for a number above one, the request itself otherwise. A pattern
    /// that is no number has no place in the order; zero is written for it, the
    /// gain that also stands for a gain that could not be read.
    pub open spec fn clamped(self) -> Volume {
        if self.is_nan() || self.rank() < 0 {
            Volume { bits: ZERO_BITS }
        } else if self.rank() > ONE_BITS {
            Volume { bits: ONE_BITS }
        } else {
            self
        }
    }

    /// The gain with the given bit pattern.
    pub fn from_bits(bits: u32) -> (v: Volume)
        ensures
            v.bits == bits,
    {
        Volume { bits }
    }

    /// The bit pattern of the gain.
    pub fn to_bits(self) -> (bits: u32)
        ensures
            bits == self.bits,
    {
        self.bits
    }

    /// The gain reported for a session whose gain could not be read.
    pub fn silent() -> (v: Volume)
        ensures
            v.bits == ZERO_BITS,
            v.in_unit_range(),
    {
        Volume { bits: ZERO_BITS }
    }

    /// Whether the pattern stands for no number.
    pub fn is_not_a_number(self) -> (b: bool)
        ensures
            b == self.is_nan(),
    {
        if self.bits >= SIGN_BIT {
            self.bits - SIGN_BIT > INFINITY_BITS
        } else {
            self.bits > INFINITY_BITS
        }
    }

    /// Brings a requested gain into the range from zero to one. Every pattern
    /// comes out as a number in that range.
    pub fn clamp_unit(self) -> (v: Volume)
        ensures
            v == self.clamped(),
            v.in_unit_range(),
            self.in_unit_range() ==> v == self,
    {
        if self.is_not_a_number() || self.bits > SIGN_BIT {
            Volume { bits: ZERO_BITS }
        } else if self.bits < SIGN_BIT && self.bits > ONE_BITS {
            Volume { bits: ONE_BITS }
        } else {
            self
        }
    }
}

/// Every pattern, a number or not, is clamped into the unit range.
pub proof fn lemma_clamped_in_unit_range(v: Volume)
    ensures
        v.clamped().in_unit_range(),
{
}

/// A gain in the unit range is written as it was requested, so clamping twice
/// is clamping once.
pub proof fn lemma_clamped_is_fixed(v: Volume)
    ensures
        v.in_unit_range() ==> v.clamped() == v,
        v.clamped().clamped() == v.clamped(),
{
}

} // verus!

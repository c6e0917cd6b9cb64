//! Real numbers carried as the bit pattern of an IEEE 754 double.

use vstd::prelude::*;

verus! {

/// The pattern of positive infinity: every pattern above it, up to the sign bit, is not a number.
pub const INFINITY_BITS: u64 = 0x7FF0_0000_0000_0000;

/// The pattern of negative zero.
pub const SIGN_BIT: u64 = 0x8000_0000_0000_0000;

/// The pattern of negative infinity: every pattern above it is not a number.
pub const NEG_INFINITY_BITS: u64 = 0xFFF0_0000_0000_0000;

/// A double-precision number, held as its 64 bits. Nothing here computes with the number: it is
/// stored, handed on, and held against zero.
#[derive(Clone, Copy, PartialEq, Eq, Structural, Debug)]
pub struct Double {
    pub bits: u64,
}

impl Double {
    /// Positive zero.
    pub fn zero() -> (r: Self)
        ensures
            r.bits == 0,
    {
        Double { bits: 0 }
    }

    /// Greater than zero. Not-a-number is not.
    pub open spec fn above_zero(self) -> bool {
        0 < self.bits <= INFINITY_BITS
    }

    /// Less than zero. Neither negative zero nor not-a-number is.
    pub open spec fn below_zero(self) -> bool {
        SIGN_BIT < self.bits <= NEG_INFINITY_BITS
    }

    /// Equal to zero, of either sign.
    pub open spec fn equals_zero(self) -> bool {
        self.bits == 0 || self.bits == SIGN_BIT
    }

    /// `self > 0.0`.
    pub fn is_positive(self) -> (r: bool)
        ensures
            r == self.above_zero(),
    {
        0 < self.bits && self.bits <= INFINITY_BITS
    }

    /// `self <= 0.0`.
    pub fn at_most_zero(self) -> (r: bool)
        ensures
            r == (self.below_zero() || self.equals_zero()),
    {
        self.bits == 0 || (SIGN_BIT <= self.bits && self.bits <= NEG_INFINITY_BITS)
    }

    /// `self >= 0.0`.
    pub fn at_least_zero(self) -> (r: bool)
        ensures
            r == (self.above_zero() || self.equals_zero()),
    {
        self.bits <= INFINITY_BITS || self.bits == SIGN_BIT
    }
}

} // verus!

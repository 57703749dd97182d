//! Tape values.
//!
//! Every value on the tape is an IEEE-754 single-precision number. The
//! library never does arithmetic on these values: it copies them, compares
//! them against zero and writes the two constants `0.0` and `1.0`. All of
//! that is exact on the 32-bit encoding, so a value is carried as its bits.

use vstd::prelude::*;

verus! {

/// Encoding of `+0.0`.
pub const ZERO_BITS: u32 = 0x0000_0000;

/// Encoding of `1.0`.
pub const ONE_BITS: u32 = 0x3F80_0000;

/// Encoding of `-1.0`.
pub const MINUS_ONE_BITS: u32 = 0xBF80_0000;

/// Encoding of `-0.0`.
pub const NEGATIVE_ZERO_BITS: u32 = 0x8000_0000;

/// Encoding of `+infinity`; every larger encoding with a clear sign bit is a NaN.
pub const INFINITY_BITS: u32 = 0x7F80_0000;

/// Encoding of `-infinity`; every larger encoding is a NaN.
pub const NEGATIVE_INFINITY_BITS: u32 = 0xFF80_0000;

/// A single-precision number, held as its IEEE-754 encoding.
#[derive(Clone, Copy, Debug, PartialEq, Eq, Structural)]
pub struct Scalar {
    pub bits: u32,
}

impl Scalar {
    /// The number `+0.0`.
    pub open spec fn spec_zero() -> Scalar {
        Scalar { bits: ZERO_BITS }
    }

    /// The number `1.0`.
    pub open spec fn spec_one() -> Scalar {
        Scalar { bits: ONE_BITS }
    }

    /// The number `-1.0`.
    pub open spec fn spec_minus_one() -> Scalar {
        Scalar { bits: MINUS_ONE_BITS }
    }

    /// The encoding is a NaN: all exponent bits set and a non-zero fraction.
    pub open spec fn spec_is_nan(self) -> bool {
        INFINITY_BITS < self.bits < NEGATIVE_ZERO_BITS || NEGATIVE_INFINITY_BITS < self.bits
    }

    /// `self >= 0.0` in IEEE-754 order: both zeros, every positive number and
    /// `+infinity`; no NaN and no negative number.
    pub open spec fn spec_is_non_negative(self) -> bool {
        self.bits <= INFINITY_BITS || self.bits == NEGATIVE_ZERO_BITS
    }

    /// `self < 0.0` in IEEE-754 order: sign bit set, not a zero and not a NaN.
    pub open spec fn spec_is_negative(self) -> bool {
        NEGATIVE_ZERO_BITS < self.bits <= NEGATIVE_INFINITY_BITS
    }

    /// `max(self, 0.0)`: the value itself where it is `>= 0.0`, else `+0.0`.
    pub open spec fn spec_rectified(self) -> Scalar {
        if self.spec_is_non_negative() {
            self
        } else {
            Scalar::spec_zero()
        }
    }

    /// Derivative of the rectifier at `self`: `1.0` where `self >= 0.0`, else `+0.0`.
    pub open spec fn spec_rectifier_mask(self) -> Scalar {
        if self.spec_is_non_negative() {
            Scalar::spec_one()
        } else {
            Scalar::spec_zero()
        }
    }

    /// A gradient seen through a rectifier mask: the gradient itself where
    /// the mask is `1.0`, and `+0.0` under any other mask.
    pub open spec fn spec_gated(self, gradient: Scalar) -> Scalar {
        if self == Scalar::spec_one() {
            gradient
        } else {
            Scalar::spec_zero()
        }
    }

    /// Wraps an encoding.
    pub fn from_bits(bits: u32) -> (r: Scalar)
        ensures
            r.bits == bits,
    {
        Scalar { bits }
    }

    /// The encoding.
    pub fn to_bits(self) -> (r: u32)
        ensures
            r == self.bits,
    {
        self.bits
    }

    pub fn zero() -> (r: Scalar)
        ensures
            r == Scalar::spec_zero(),
    {
        Scalar { bits: ZERO_BITS }
    }

    pub fn one() -> (r: Scalar)
        ensures
            r == Scalar::spec_one(),
    {
        Scalar { bits: ONE_BITS }
    }

    pub fn minus_one() -> (r: Scalar)
        ensures
            r == Scalar::spec_minus_one(),
    {
        Scalar { bits: MINUS_ONE_BITS }
    }

    pub fn is_nan(self) -> (r: bool)
        ensures
            r == self.spec_is_nan(),
    {
        (INFINITY_BITS < self.bits && self.bits < NEGATIVE_ZERO_BITS) || NEGATIVE_INFINITY_BITS
            < self.bits
    }

    pub fn is_non_negative(self) -> (r: bool)
        ensures
            r == self.spec_is_non_negative(),
    {
        self.bits <= INFINITY_BITS || self.bits == NEGATIVE_ZERO_BITS
    }

    pub fn is_negative(self) -> (r: bool)
        ensures
            r == self.spec_is_negative(),
    {
        NEGATIVE_ZERO_BITS < self.bits && self.bits <= NEGATIVE_INFINITY_BITS
    }

    pub fn rectified(self) -> (r: Scalar)
        ensures
            r == self.spec_rectified(),
    {
        if self.is_non_negative() {
            self
        } else {
            Scalar::zero()
        }
    }

    pub fn rectifier_mask(self) -> (r: Scalar)
        ensures
            r == self.spec_rectifier_mask(),
    {
        if self.is_non_negative() {
            Scalar::one()
        } else {
            Scalar::zero()
        }
    }

    pub fn gated(self, gradient: Scalar) -> (r: Scalar)
        ensures
            r == self.spec_gated(gradient),
    {
        if self.bits == ONE_BITS {
            gradient
        } else {
            Scalar::zero()
        }
    }
}

} // verus!

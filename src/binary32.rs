//! IEEE-754 binary32 values held by their bit patterns.

use vstd::prelude::*;

verus! {

/// Bits of the exponent field.
pub const EXPONENT_MASK: u32 = 0x7f80_0000;

/// Bits of the fraction field.
pub const FRACTION_MASK: u32 = 0x007f_ffff;

/// Every bit but the sign.
pub const MAGNITUDE_MASK: u32 = 0x7fff_ffff;

/// The sign bit.
pub const SIGN_BIT: u32 = 0x8000_0000;

/// A binary32 floating-point value, held by its bit pattern.
#[derive(Clone, Copy, Debug, PartialEq, Eq, Structural)]
pub struct Binary32 {
    pub bits: u32,
}

/// The pattern is a NaN: all exponent bits set and a non-zero fraction.
pub open spec fn nan_bits(b: u32) -> bool {
    (b & EXPONENT_MASK) == EXPONENT_MASK && (b & FRACTION_MASK) != 0
}

/// The pattern is `+0.0` or `-0.0`.
pub open spec fn zero_bits(b: u32) -> bool {
    (b & MAGNITUDE_MASK) == 0
}

/// The position of a non-NaN pattern on the real line: patterns order as the
/// values they encode, and both zeros share the position 0.
pub open spec fn order_key(b: u32) -> int {
    if b >= SIGN_BIT {
        -((b & MAGNITUDE_MASK) as int)
    } else {
        b as int
    }
}

/// `a < b` on binary32 values: false whenever either side is a NaN.
pub open spec fn less_bits(a: u32, b: u32) -> bool {
    !nan_bits(a) && !nan_bits(b) && order_key(a) < order_key(b)
}

/// `b > 0.0` on binary32 values.
pub open spec fn positive_bits(b: u32) -> bool {
    !nan_bits(b) && order_key(b) > 0
}

/// Below the sign bit, a pattern is its own magnitude.
proof fn lemma_magnitude_of_non_negative(b: u32)
    ensures
        b < SIGN_BIT ==> b & MAGNITUDE_MASK == b,
{
    assert(b < 0x8000_0000u32 ==> b & 0x7fff_ffffu32 == b) by (bit_vector);
}

impl Binary32 {
    pub open spec fn is_nan_spec(self) -> bool {
        nan_bits(self.bits)
    }

    pub open spec fn is_zero_spec(self) -> bool {
        zero_bits(self.bits)
    }

    pub open spec fn lt_spec(self, other: Binary32) -> bool {
        less_bits(self.bits, other.bits)
    }

    pub open spec fn is_positive_spec(self) -> bool {
        positive_bits(self.bits)
    }

    /// The value with the given bit pattern.
    pub fn from_bits(bits: u32) -> (r: Binary32)
        ensures
            r.bits == bits,
    {
        Binary32 { bits }
    }

    /// Whether the value is a NaN.
    pub fn is_nan(&self) -> (r: bool)
        ensures
            r == self.is_nan_spec(),
    {
        (self.bits & EXPONENT_MASK) == EXPONENT_MASK && (self.bits & FRACTION_MASK) != 0
    }

    /// Whether the value is `+0.0` or `-0.0`.
    pub fn is_zero(&self) -> (r: bool)
        ensures
            r == self.is_zero_spec(),
    {
        (self.bits & MAGNITUDE_MASK) == 0
    }

    /// `self < other`, as binary32 compares: no NaN is less or greater than anything.
    pub fn lt(&self, other: &Binary32) -> (r: bool)
        ensures
            r == self.lt_spec(*other),
    {
        if self.is_nan() || other.is_nan() {
            return false;
        }
        let a = self.bits & MAGNITUDE_MASK;
        let b = other.bits & MAGNITUDE_MASK;
        proof {
            lemma_magnitude_of_non_negative(self.bits);
            lemma_magnitude_of_non_negative(other.bits);
        }
        if self.bits >= SIGN_BIT {
            if other.bits >= SIGN_BIT {
                b < a
            } else {
                a != 0 || b != 0
            }
        } else if other.bits >= SIGN_BIT {
            false
        } else {
            a < b
        }
    }

    /// `self > 0.0`.
    pub fn is_positive(&self) -> (r: bool)
        ensures
            r == self.is_positive_spec(),
    {
        !self.is_nan() && self.bits < SIGN_BIT && self.bits != 0
    }
}

} // verus!

//! Numbers as bit patterns.
//!
//! A number of the language is a double-precision value in IEEE 754 binary64
//! format. The library holds it as its 64 bits and decides on them what the
//! bits alone decide: sign, zero, not-a-number, equality and order. It
//! computes no sum, product or power; those it asks of the host.

use vstd::prelude::*;

verus! {

/// A double-precision number, held as its IEEE 754 binary64 bit pattern:
/// one sign bit, eleven exponent bits, fifty-two fraction bits.
#[derive(Clone, Copy, Debug, PartialEq, Eq, Structural)]
pub struct Number {
    pub bits: u64,
}

/// The weight of the sign bit.
pub const SIGN: u64 = 0x8000_0000_0000_0000;

/// The bits of positive infinity: the largest magnitude that is a number.
pub const INFINITY: u64 = 0x7FF0_0000_0000_0000;

/// The bits without the sign bit.
pub open spec fn magnitude(bits: u64) -> int {
    bits as int % SIGN as int
}

/// Whether the sign bit is set.
pub open spec fn negative(bits: u64) -> bool {
    bits >= SIGN
}

/// Whether the bits are those of a not-a-number value.
pub open spec fn is_nan(bits: u64) -> bool {
    magnitude(bits) > INFINITY
}

/// Whether the bits are those of `0.0` or `-0.0`.
pub open spec fn is_zero(bits: u64) -> bool {
    magnitude(bits) == 0
}

/// An integer that orders the bit patterns that are numbers as IEEE 754
/// orders the values: the magnitude, negated where the sign bit is set.
pub open spec fn order_key(bits: u64) -> int {
    if negative(bits) {
        -magnitude(bits)
    } else {
        magnitude(bits)
    }
}

/// `a == b` on the values: neither is not-a-number, and they are the same
/// value (`0.0` equals `-0.0`).
pub open spec fn equal(a: u64, b: u64) -> bool {
    !is_nan(a) && !is_nan(b) && order_key(a) == order_key(b)
}

/// `a < b` on the values: neither is not-a-number, and `a` is the smaller.
pub open spec fn less(a: u64, b: u64) -> bool {
    !is_nan(a) && !is_nan(b) && order_key(a) < order_key(b)
}

/// The bits of `-x`: those of `x` with the sign bit flipped.
pub open spec fn negated(bits: u64) -> u64 {
    if negative(bits) {
        (bits - SIGN) as u64
    } else {
        (bits + SIGN) as u64
    }
}

impl Number {
    pub fn from_bits(bits: u64) -> (number: Self)
        ensures
            number.bits == bits,
    {
        Number { bits }
    }

    pub fn to_bits(&self) -> (bits: u64)
        ensures
            bits == self.bits,
    {
        self.bits
    }

    /// The bits without the sign, and the sign.
    fn parts(&self) -> (parts: (u64, bool))
        ensures
            parts.0 == magnitude(self.bits),
            parts.1 == negative(self.bits),
    {
        if self.bits >= SIGN {
            (self.bits - SIGN, true)
        } else {
            (self.bits, false)
        }
    }

    pub fn is_nan(&self) -> (nan: bool)
        ensures
            nan == is_nan(self.bits),
    {
        self.parts().0 > INFINITY
    }

    pub fn is_zero(&self) -> (zero: bool)
        ensures
            zero == is_zero(self.bits),
    {
        self.parts().0 == 0
    }

    /// `-self`.
    pub fn negate(&self) -> (result: Number)
        ensures
            result.bits == negated(self.bits),
    {
        if self.bits >= SIGN {
            Number { bits: self.bits - SIGN }
        } else {
            Number { bits: self.bits + SIGN }
        }
    }

    /// `self == other` on the values.
    pub fn equals(&self, other: &Number) -> (result: bool)
        ensures
            result == equal(self.bits, other.bits),
    {
        if self.is_nan() || other.is_nan() {
            return false;
        }
        let (a, a_negative) = self.parts();
        let (b, b_negative) = other.parts();
        if a_negative == b_negative {
            a == b
        } else {
            a == 0 && b == 0
        }
    }

    /// `self < other` on the values.
    pub fn less_than(&self, other: &Number) -> (result: bool)
        ensures
            result == less(self.bits, other.bits),
    {
        if self.is_nan() || other.is_nan() {
            return false;
        }
        let (a, a_negative) = self.parts();
        let (b, b_negative) = other.parts();
        if a_negative {
            if b_negative {
                a > b
            } else {
                !(a == 0 && b == 0)
            }
        } else {
            if b_negative {
                false
            } else {
                a < b
            }
        }
    }
}

} // verus!

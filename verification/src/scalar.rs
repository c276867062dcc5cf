//! IEEE 754 binary64 values, carried by their bit patterns.
//!
//! A [`Scalar`] is the 64-bit pattern of a binary64 number: one sign bit,
//! eleven exponent bits and fifty-two fraction bits. Classification and the
//! ordering of two values depend on the pattern alone, so they are computed
//! and proved here on integers. Rounding arithmetic is not: the functions of
//! this crate that need a sum or a product take it from their caller.
use vstd::prelude::*;

verus! {

/// The sign bit of a binary64 pattern.
pub const SIGN_BIT: u64 = 0x8000_0000_0000_0000;

/// The pattern of positive infinity: every exponent bit set, no fraction bit.
pub const INFINITY_BITS: u64 = 0x7ff0_0000_0000_0000;

/// The pattern of the number one.
pub const ONE_BITS: u64 = 0x3ff0_0000_0000_0000;

/// The pattern of the number minus one.
pub const MINUS_ONE_BITS: u64 = 0xbff0_0000_0000_0000;

/// A binary64 value, identified with its bit pattern.
///
/// `==` on scalars compares patterns: the two zeros differ, and a NaN equals
/// itself. The numeric comparison is [`Scalar::gt`].
#[derive(Clone, Copy, Debug, PartialEq, Eq, Structural)]
pub struct Scalar {
    pub bits: u64,
}

impl Scalar {
    /// The pattern without its sign bit.
    pub open spec fn magnitude(self) -> u64 {
        if self.bits >= SIGN_BIT {
            (self.bits - SIGN_BIT) as u64
        } else {
            self.bits
        }
    }

    /// Whether the sign bit is set.
    pub open spec fn is_negative(self) -> bool {
        self.bits >= SIGN_BIT
    }

    /// Not a number: every exponent bit set and some fraction bit set.
    pub open spec fn is_nan(self) -> bool {
        self.magnitude() > INFINITY_BITS
    }

    /// Positive or negative infinity.
    pub open spec fn is_infinite(self) -> bool {
        self.magnitude() == INFINITY_BITS
    }

    /// Zero, subnormal or normal.
    pub open spec fn is_finite(self) -> bool {
        self.magnitude() < INFINITY_BITS
    }

    /// Unfit for further integration: NaN or infinite.
    pub open spec fn degenerate(self) -> bool {
        self.is_nan() || self.is_infinite()
    }

    /// The place of a value on the number line.
    ///
    /// Binary64 is a sign-and-magnitude format in which a larger magnitude
    /// pattern is a larger absolute value, so the signed magnitude orders all
    /// values that are not NaN as the numbers they stand for. Both zeros have
    /// rank 0, the infinities have the two extreme ranks.
    pub open spec fn rank(self) -> int {
        if self.is_negative() {
            -(self.magnitude() as int)
        } else {
            self.magnitude() as int
        }
    }

    /// `self > other` as numbers: false when either is NaN.
    pub open spec fn greater(self, other: Scalar) -> bool {
        !self.is_nan() && !other.is_nan() && self.rank() > other.rank()
    }

    /// `self >= other` as numbers: false when either is NaN.
    pub open spec fn at_least(self, other: Scalar) -> bool {
        !self.is_nan() && !other.is_nan() && self.rank() >= other.rank()
    }

    /// The greater of two values, with `self` preferred: `other` where `self`
    /// is NaN or `other` is greater, else `self`.
    pub open spec fn larger(self, other: Scalar) -> Scalar {
        if self.is_nan() || other.greater(self) {
            other
        } else {
            self
        }
    }

    /// The lesser of two values, with `self` preferred: `other` where `self`
    /// is NaN or `other` is less, else `self`.
    pub open spec fn smaller(self, other: Scalar) -> Scalar {
        if self.is_nan() || self.greater(other) {
            other
        } else {
            self
        }
    }

    /// The absolute value: the same pattern with the sign bit cleared.
    pub open spec fn magnitude_scalar(self) -> Scalar {
        Scalar { bits: self.magnitude() }
    }

    /// The scalar with the given pattern.
    pub fn from_bits(bits: u64) -> (s: Scalar)
        ensures
            s.bits == bits,
    {
        Scalar { bits }
    }

    /// The pattern of this scalar.
    pub fn to_bits(self) -> (bits: u64)
        ensures
            bits == self.bits,
    {
        self.bits
    }

    /// Positive zero.
    pub fn zero() -> (s: Scalar)
        ensures
            s.bits == 0,
    {
        Scalar { bits: 0 }
    }

    /// The number one.
    pub fn one() -> (s: Scalar)
        ensures
            s.bits == ONE_BITS,
    {
        Scalar { bits: ONE_BITS }
    }

    /// The number minus one.
    pub fn minus_one() -> (s: Scalar)
        ensures
            s.bits == MINUS_ONE_BITS,
    {
        Scalar { bits: MINUS_ONE_BITS }
    }

    fn magnitude_bits(self) -> (m: u64)
        ensures
            m == self.magnitude(),
    {
        if self.bits >= SIGN_BIT {
            self.bits - SIGN_BIT
        } else {
            self.bits
        }
    }

    /// Whether this is a NaN.
    pub fn is_not_a_number(self) -> (r: bool)
        ensures
            r == self.is_nan(),
    {
        self.magnitude_bits() > INFINITY_BITS
    }

    /// The absolute value. A NaN stays a NaN.
    pub fn abs(self) -> (r: Scalar)
        ensures
            r == self.magnitude_scalar(),
            !r.is_negative(),
            r.magnitude() == self.magnitude(),
    {
        Scalar { bits: self.magnitude_bits() }
    }

    /// Whether `self` is greater than `other` as numbers.
    pub fn gt(self, other: Scalar) -> (r: bool)
        ensures
            r == self.greater(other),
    {
        let a: u64 = self.magnitude_bits();
        let b: u64 = other.magnitude_bits();
        if a > INFINITY_BITS || b > INFINITY_BITS {
            false
        } else if self.bits >= SIGN_BIT {
            other.bits >= SIGN_BIT && a < b
        } else if other.bits >= SIGN_BIT {
            a > 0 || b > 0
        } else {
            a > b
        }
    }

    /// Whether `self` is at least `other` as numbers.
    pub fn ge(self, other: Scalar) -> (r: bool)
        ensures
            r == self.at_least(other),
    {
        let a: u64 = self.magnitude_bits();
        let b: u64 = other.magnitude_bits();
        if a > INFINITY_BITS || b > INFINITY_BITS {
            false
        } else if self.bits >= SIGN_BIT {
            if other.bits >= SIGN_BIT {
                a <= b
            } else {
                a == 0 && b == 0
            }
        } else if other.bits >= SIGN_BIT {
            true
        } else {
            a >= b
        }
    }

    /// The greater of two values. A NaN gives way to the other value; of two
    /// values that compare equal, such as the two zeros, `self` comes back.
    pub fn max(self, other: Scalar) -> (r: Scalar)
        ensures
            r == self.larger(other),
            !self.is_nan() ==> r.at_least(self),
            !other.is_nan() ==> r.at_least(other),
    {
        if self.is_not_a_number() || other.gt(self) {
            other
        } else {
            self
        }
    }

    /// The lesser of two values. A NaN gives way to the other value; of two
    /// values that compare equal, such as the two zeros, `self` comes back.
    pub fn min(self, other: Scalar) -> (r: Scalar)
        ensures
            r == self.smaller(other),
            !self.is_nan() ==> self.at_least(r),
            !other.is_nan() ==> other.at_least(r),
    {
        if self.is_not_a_number() || self.gt(other) {
            other
        } else {
            self
        }
    }
}

/// `greater` is a strict order: nothing is greater than itself, no two
/// values are each greater than the other, and what is greater than a value
/// is greater than all that the value is greater than.
pub proof fn lemma_greater_is_strict(a: Scalar, b: Scalar, c: Scalar)
    ensures
        !a.greater(a),
        a.greater(b) ==> !b.greater(a),
        a.greater(b) && b.greater(c) ==> a.greater(c),
        a.greater(b) ==> a.at_least(b),
        a.at_least(b) && b.greater(c) ==> a.greater(c),
        a.at_least(b) && b.at_least(c) ==> a.at_least(c),
{
}

/// Whether a value is NaN or infinite, and so ends an integration.
pub fn is_degenerate(x: Scalar) -> (r: bool)
    ensures
        r == x.degenerate(),
        r == !x.is_finite(),
{
    x.magnitude_bits() >= INFINITY_BITS
}

} // verus!

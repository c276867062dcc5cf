//! The numbers that bit patterns stand for.
//!
//! A finite binary64 value is a whole multiple of `2^-1074`, the smallest
//! positive value of the format. [`Scalar::units`] is that multiple, an
//! integer, and serves as the meaning of a finite pattern.
use crate::scalar::Scalar;
use vstd::arithmetic::power2::lemma2_to64_rest;
use vstd::arithmetic::power2::lemma_pow2_adds;
use vstd::arithmetic::power2::lemma_pow2_pos;
use vstd::arithmetic::power2::lemma_pow2_strictly_increases;
use vstd::arithmetic::power2::lemma_pow2_unfold;
use vstd::arithmetic::power2::pow2;
use vstd::prelude::*;

verus! {

/// The number of fraction patterns: two to the power 52.
pub const FRACTION_SPAN: u64 = 0x10_0000_0000_0000;

/// The binary logarithm of the number of units in the number one.
pub const UNIT_SHIFT: u64 = 1074;

impl Scalar {
    /// The eleven exponent bits, as a number.
    pub open spec fn exponent_field(self) -> nat {
        (self.magnitude() / FRACTION_SPAN) as nat
    }

    /// The fifty-two fraction bits, as a number.
    pub open spec fn fraction_field(self) -> nat {
        (self.magnitude() % FRACTION_SPAN) as nat
    }

    /// The absolute value of a finite scalar, in units of `2^-1074`.
    ///
    /// With exponent field 0 the value is subnormal and the fraction counts
    /// units. Otherwise the significand is the fraction with a leading one,
    /// and each increment of the exponent field doubles the value.
    pub open spec fn size(self) -> nat {
        if self.exponent_field() == 0 {
            self.fraction_field()
        } else {
            ((FRACTION_SPAN + self.fraction_field()) * pow2(
                (self.exponent_field() - 1) as nat,
            )) as nat
        }
    }

    /// The value of a finite scalar, in units of `2^-1074`.
    pub open spec fn units(self) -> int {
        if self.is_negative() {
            -(self.size() as int)
        } else {
            self.size() as int
        }
    }

    /// Whether this is the natural number `n`, with the sign bit clear.
    pub open spec fn stands_for(self, n: nat) -> bool {
        self.is_finite() && !self.is_negative() && self.size() == n * pow2(UNIT_SHIFT as nat)
    }

    /// The scalar that stands for `n`. Every `u32` is a binary64 value, so
    /// nothing is rounded.
    pub fn from_u32(n: u32) -> (s: Scalar)
        ensures
            s.stands_for(n as nat),
    {
        if n == 0 {
            return Scalar { bits: 0 };
        }
        let mut significand: u64 = n as u64;
        let mut doublings: u64 = 0;
        proof {
            lemma2_to64_rest();
            assert(pow2(0) == 1) by {
                vstd::arithmetic::power2::lemma2_to64();
            }
        }
        while significand < FRACTION_SPAN
            invariant
                n >= 1,
                doublings <= 52,
                significand == n * pow2(doublings as nat),
                significand < 2 * FRACTION_SPAN,
                pow2(52) == FRACTION_SPAN,
            decreases 2 * FRACTION_SPAN - significand,
        {
            proof {
                lemma_pow2_unfold((doublings + 1) as nat);
                lemma_pow2_pos(doublings as nat);
                assert(n * pow2((doublings + 1) as nat) == 2 * (n * pow2(doublings as nat)))
                    by (nonlinear_arith)
                    requires
                        pow2((doublings + 1) as nat) == 2 * pow2(doublings as nat),
                ;
                assert(n * pow2(doublings as nat) >= pow2(doublings as nat)) by (nonlinear_arith)
                    requires
                        n >= 1,
                ;
            }
            significand = significand * 2;
            doublings = doublings + 1;
        }
        let exponent: u64 = 1075 - doublings;
        let fraction: u64 = significand - FRACTION_SPAN;
        let bits: u64 = exponent * FRACTION_SPAN + fraction;
        let s = Scalar { bits };
        proof {
            assert(s.magnitude() == bits);
            assert(bits / FRACTION_SPAN == exponent);
            assert(bits % FRACTION_SPAN == fraction);
            lemma_pow2_adds(doublings as nat, (1074 - doublings) as nat);
            assert(s.size() == significand * pow2((1074 - doublings) as nat));
            assert(significand * pow2((1074 - doublings) as nat) == n * pow2(1074))
                by (nonlinear_arith)
                requires
                    significand == n * pow2(doublings as nat),
                    pow2(1074) == pow2(doublings as nat) * pow2((1074 - doublings) as nat),
            ;
        }
        s
    }
}

/// Among finite scalars, a greater magnitude pattern is a greater absolute
/// value.
pub proof fn lemma_size_rises_with_magnitude(a: Scalar, b: Scalar)
    requires
        a.is_finite(),
        b.is_finite(),
        a.magnitude() < b.magnitude(),
    ensures
        a.size() < b.size(),
{
    let span = FRACTION_SPAN as int;
    let ea = a.exponent_field();
    let eb = b.exponent_field();
    let fa = a.fraction_field() as int;
    let fb = b.fraction_field() as int;
    assert(ea <= eb);
    if ea == eb {
        assert(fa < fb);
        if ea != 0 {
            let scale = pow2((ea - 1) as nat) as int;
            lemma_pow2_pos((ea - 1) as nat);
            assert((span + fa) * scale < (span + fb) * scale) by (nonlinear_arith)
                requires
                    fa < fb,
                    scale > 0,
            ;
        }
    } else {
        let low = pow2(ea) as int;
        let high = pow2((eb - 1) as nat) as int;
        lemma_pow2_pos(ea);
        if ea < eb - 1 {
            lemma_pow2_strictly_increases(ea, (eb - 1) as nat);
        }
        assert(low <= high);
        assert(a.size() < span * low) by {
            if ea == 0 {
                assert(pow2(0) == 1) by {
                    vstd::arithmetic::power2::lemma2_to64();
                }
            } else {
                let scale = pow2((ea - 1) as nat) as int;
                lemma_pow2_unfold(ea);
                lemma_pow2_pos((ea - 1) as nat);
                assert((span + fa) * scale < span * (2 * scale)) by (nonlinear_arith)
                    requires
                        fa < span,
                        scale > 0,
                ;
            }
        }
        assert(span * low <= (span + fb) * high) by (nonlinear_arith)
            requires
                0 <= fb,
                0 < low <= high,
                span > 0,
        ;
    }
}

/// The order of ranks is the order of values: of two finite scalars, the one
/// with the greater rank stands for the greater number, and two with one rank
/// stand for one number.
pub proof fn lemma_rank_orders_units(a: Scalar, b: Scalar)
    requires
        a.is_finite(),
        b.is_finite(),
    ensures
        a.rank() < b.rank() <==> a.units() < b.units(),
        a.rank() == b.rank() <==> a.units() == b.units(),
        a.greater(b) <==> a.units() > b.units(),
        a.at_least(b) <==> a.units() >= b.units(),
{
    let zero = Scalar { bits: 0 };
    assert(zero.size() == 0);
    if a.magnitude() > 0 {
        lemma_size_rises_with_magnitude(zero, a.magnitude_scalar());
    }
    if b.magnitude() > 0 {
        lemma_size_rises_with_magnitude(zero, b.magnitude_scalar());
    }
    if a.magnitude() < b.magnitude() {
        lemma_size_rises_with_magnitude(a.magnitude_scalar(), b.magnitude_scalar());
    } else if b.magnitude() < a.magnitude() {
        lemma_size_rises_with_magnitude(b.magnitude_scalar(), a.magnitude_scalar());
    }
    assert(a.magnitude_scalar().size() == a.size());
    assert(b.magnitude_scalar().size() == b.size());
}

/// At most one scalar stands for a given natural number.
pub proof fn lemma_stands_for_one_scalar(a: Scalar, b: Scalar, n: nat)
    requires
        a.stands_for(n),
        b.stands_for(n),
    ensures
        a == b,
{
    lemma_rank_orders_units(a, b);
}

/// The patterns of one and of minus one stand for those numbers, and the
/// pattern of all zeros for zero.
pub proof fn lemma_named_patterns()
    ensures
        (Scalar { bits: 0 }).stands_for(0),
        (Scalar { bits: crate::scalar::ONE_BITS }).stands_for(1),
        (Scalar { bits: crate::scalar::MINUS_ONE_BITS }).is_finite(),
        (Scalar { bits: crate::scalar::MINUS_ONE_BITS }).units() == -pow2(UNIT_SHIFT as nat),
{
    lemma2_to64_rest();
    lemma_pow2_adds(52, 1022);
    let one = Scalar { bits: crate::scalar::ONE_BITS };
    let minus_one = Scalar { bits: crate::scalar::MINUS_ONE_BITS };
    assert(one.exponent_field() == 1023);
    assert(one.fraction_field() == 0);
    assert(minus_one.magnitude() == crate::scalar::ONE_BITS);
    assert(minus_one.exponent_field() == 1023);
    assert(minus_one.fraction_field() == 0);
}

} // verus!

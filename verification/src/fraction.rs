//! Fractions of two integers: the values that quotients stand for.
//!
//! A [`Fraction`] exists in specifications only. It need not be in lowest terms, and
//! two fractions stand for the same rational number when they cross-multiply to the
//! same product.

use vstd::prelude::*;

verus! {

/// The integer of the given magnitude: `magnitude` if `positive`, else its negation.
pub open spec fn signed(magnitude: nat, positive: bool) -> int {
    if positive {
        magnitude as int
    } else {
        -(magnitude as int)
    }
}

/// A numerator over a denominator, both unbounded. The denominator is nonzero in every
/// fraction that stands for a number.
pub struct Fraction {
    pub num: int,
    pub den: int,
}

impl Fraction {
    /// The fraction of two magnitudes, negated unless `positive`.
    pub open spec fn signed(dividend: nat, divisor: nat, positive: bool) -> Fraction {
        Fraction { num: signed(dividend, positive), den: divisor as int }
    }

    /// The whole number `i`.
    pub open spec fn whole(i: int) -> Fraction {
        Fraction { num: i, den: 1 }
    }

    /// Both fractions stand for the same rational number.
    pub open spec fn same_value(self, other: Fraction) -> bool {
        self.num * other.den == other.num * self.den
    }

    /// The sum, over the product of the denominators.
    pub open spec fn plus(self, other: Fraction) -> Fraction {
        Fraction { num: self.num * other.den + other.num * self.den, den: self.den * other.den }
    }

    /// The additive inverse.
    pub open spec fn negated(self) -> Fraction {
        Fraction { num: -self.num, den: self.den }
    }

    /// The difference, over the product of the denominators.
    pub open spec fn minus(self, other: Fraction) -> Fraction {
        self.plus(other.negated())
    }

    /// The product.
    pub open spec fn times(self, other: Fraction) -> Fraction {
        Fraction { num: self.num * other.num, den: self.den * other.den }
    }

    /// The multiplicative inverse, with the sign kept in the numerator. It stands for a
    /// number only if `self` is not zero.
    pub open spec fn reciprocal(self) -> Fraction {
        if self.num >= 0 {
            Fraction { num: self.den, den: self.num }
        } else {
            Fraction { num: -self.den, den: -self.num }
        }
    }

    /// The ratio of `self` to `other`.
    pub open spec fn over(self, other: Fraction) -> Fraction {
        self.times(other.reciprocal())
    }
}

/// Having the same value is transitive across a fraction with a nonzero denominator.
pub proof fn lemma_same_value_transitive(a: Fraction, b: Fraction, c: Fraction)
    requires
        b.den != 0,
        a.same_value(b),
        b.same_value(c),
    ensures
        a.same_value(c),
{
    assert(a.num * c.den == c.num * a.den) by (nonlinear_arith)
        requires
            b.den != 0,
            a.num * b.den == b.num * a.den,
            b.num * c.den == c.num * b.den,
    ;
}

/// Fractions with a zero numerator have the same value.
pub proof fn lemma_zero_numerators(a: Fraction, b: Fraction)
    requires
        a.num == 0,
        b.num == 0,
    ensures
        a.same_value(b),
{
    assert(a.num * b.den == b.num * a.den) by (nonlinear_arith)
        requires
            a.num == 0,
            b.num == 0,
    ;
}

/// Scaling a signed magnitude scales the magnitude and keeps the sign.
pub proof fn lemma_signed_scaled(magnitude: nat, positive: bool, factor: nat)
    ensures
        signed(magnitude, positive) * factor == signed(magnitude * factor, positive),
        factor * signed(magnitude, positive) == signed(factor * magnitude, positive),
{
    if !positive {
        assert((-(magnitude as int)) * factor == -(magnitude * factor)) by (nonlinear_arith);
        assert(factor * (-(magnitude as int)) == -(factor * magnitude)) by (nonlinear_arith);
    }
}

/// The product of two signed magnitudes is the product of the magnitudes, positive
/// where the signs agree.
pub proof fn lemma_signed_times(a: nat, s: bool, b: nat, t: bool)
    ensures
        signed(a, s) * signed(b, t) == signed(a * b, s == t),
{
    lemma_signed_scaled(a, s, b);
    if !t {
        assert(signed(a, s) * (-(b as int)) == -(signed(a, s) * b)) by (nonlinear_arith);
    }
}

} // verus!

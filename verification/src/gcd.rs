//! Greatest common divisors of unsigned integers, by Euclid's algorithm.

use vstd::arithmetic::div_mod::*;
use vstd::prelude::*;

verus! {

/// `d` is positive and divides both `a` and `b`.
pub open spec fn is_common_divisor(d: nat, a: nat, b: nat) -> bool {
    d > 0 && a % d == 0 && b % d == 0
}

/// `g` is a common divisor of `a` and `b`, and no common divisor is larger.
pub open spec fn is_greatest_common_divisor(g: nat, a: nat, b: nat) -> bool {
    &&& is_common_divisor(g, a, b)
    &&& forall|d: nat| is_common_divisor(d, a, b) ==> d <= g
}

/// What [`gcd`] computes: the greatest common divisor of two positive numbers, and zero
/// as soon as one of them is zero.
pub open spec fn gcd_spec(a: nat, b: nat) -> nat {
    if a == 0 || b == 0 {
        0
    } else {
        choose|g: nat| is_greatest_common_divisor(g, a, b)
    }
}

/// A positive number is at least as large as each of its divisors.
pub proof fn lemma_divisor_is_bounded(d: nat, n: nat)
    requires
        d > 0,
        n > 0,
        n % d == 0,
    ensures
        d <= n,
{
    if n < d {
        lemma_small_mod(n, d);
    }
}

/// Replacing `a` by its remainder modulo `b` keeps the common divisors.
pub proof fn lemma_common_divisor_step(d: nat, a: nat, b: nat)
    requires
        b > 0,
    ensures
        is_common_divisor(d, a, b) <==> is_common_divisor(d, b, a % b),
{
    if d > 0 && b % d == 0 {
        let k = (b / d) * (a / b);
        assert(a == d * k + a % b) by {
            lemma_fundamental_div_mod(a as int, b as int);
            lemma_fundamental_div_mod(b as int, d as int);
            assert(b * (a / b) == d * k) by (nonlinear_arith)
                requires
                    b == d * (b / d),
                    k == (b / d) * (a / b),
            ;
        }
        lemma_mod_multiples_vanish(k as int, (a % b) as int, d as int);
    }
}

/// There is at most one greatest common divisor.
pub proof fn lemma_greatest_common_divisor_unique(g: nat, h: nat, a: nat, b: nat)
    requires
        is_greatest_common_divisor(g, a, b),
        is_greatest_common_divisor(h, a, b),
    ensures
        g == h,
{
}

/// Replacing `a` by its remainder modulo `b` keeps the greatest common divisor.
pub proof fn lemma_greatest_common_divisor_step(g: nat, a: nat, b: nat)
    requires
        b > 0,
    ensures
        is_greatest_common_divisor(g, a, b) <==> is_greatest_common_divisor(g, b, a % b),
{
    let r = a % b;
    lemma_common_divisor_step(g, a, b);
    if is_greatest_common_divisor(g, a, b) {
        assert forall|d: nat| is_common_divisor(d, b, r) implies d <= g by {
            lemma_common_divisor_step(d, a, b);
        }
    }
    if is_greatest_common_divisor(g, b, r) {
        assert forall|d: nat| is_common_divisor(d, a, b) implies d <= g by {
            lemma_common_divisor_step(d, a, b);
        }
    }
}

/// The greatest common divisor of `a` and zero is `a`.
pub proof fn lemma_greatest_common_divisor_with_zero(g: nat, a: nat)
    ensures
        is_greatest_common_divisor(g, a, 0) <==> a > 0 && g == a,
{
    if a > 0 {
        lemma_mod_self_0(a as int);
        assert forall|d: nat| is_common_divisor(d, a, 0) implies d <= a by {
            lemma_divisor_is_bounded(d, a);
        }
        if is_greatest_common_divisor(g, a, 0) {
            lemma_greatest_common_divisor_unique(g, a, a, 0);
        }
    } else if is_greatest_common_divisor(g, a, 0) {
        assert(is_common_divisor(g + 1, 0, 0));
    }
}

/// Two numbers that are not both zero have a greatest common divisor.
pub proof fn lemma_greatest_common_divisor_exists(a: nat, b: nat)
    requires
        a > 0 || b > 0,
    ensures
        exists|g: nat| is_greatest_common_divisor(g, a, b),
    decreases b,
{
    if b == 0 {
        lemma_greatest_common_divisor_with_zero(a, a);
    } else {
        let r = a % b;
        lemma_greatest_common_divisor_exists(b, r);
        let g = choose|g: nat| is_greatest_common_divisor(g, b, r);
        lemma_greatest_common_divisor_step(g, a, b);
    }
}

/// Multiplying both numbers by `k` multiplies their greatest common divisor by `k`.
pub proof fn lemma_greatest_common_divisor_scales(k: nat, g: nat, a: nat, b: nat)
    requires
        k > 0,
        is_greatest_common_divisor(g, a, b),
    ensures
        is_greatest_common_divisor(k * g, k * a, k * b),
    decreases b,
{
    if b == 0 {
        lemma_greatest_common_divisor_with_zero(g, a);
        assert(k * a > 0) by (nonlinear_arith)
            requires
                k > 0,
                a > 0,
        ;
        assert(k * b == 0) by (nonlinear_arith)
            requires
                b == 0,
        ;
        lemma_greatest_common_divisor_with_zero(k * g, k * a);
    } else {
        lemma_greatest_common_divisor_step(g, a, b);
        lemma_greatest_common_divisor_scales(k, g, b, a % b);
        lemma_truncate_middle(a as int, k as int, b as int);
        lemma_greatest_common_divisor_step(k * g, k * a, k * b);
    }
}

/// For positive numbers, [`gcd_spec`] is their greatest common divisor.
pub proof fn lemma_gcd_is_greatest(a: nat, b: nat)
    requires
        a > 0,
        b > 0,
    ensures
        is_greatest_common_divisor(gcd_spec(a, b), a, b),
{
    lemma_greatest_common_divisor_exists(a, b);
}

/// The greatest common divisor of a positive number and one is one.
pub proof fn lemma_gcd_with_one(n: nat)
    requires
        n > 0,
    ensures
        gcd_spec(n, 1) == 1,
{
    lemma_gcd_is_greatest(n, 1);
    lemma_divisor_is_bounded(gcd_spec(n, 1), 1);
}

/// The order of the arguments does not matter.
pub proof fn lemma_gcd_symmetric(a: nat, b: nat)
    ensures
        gcd_spec(a, b) == gcd_spec(b, a),
{
    if a > 0 && b > 0 {
        lemma_gcd_is_greatest(a, b);
        lemma_gcd_is_greatest(b, a);
        let g = gcd_spec(a, b);
        assert forall|d: nat| is_common_divisor(d, b, a) implies d <= g by {
            assert(is_common_divisor(d, a, b));
        }
        lemma_greatest_common_divisor_unique(g, gcd_spec(b, a), b, a);
    }
}

/// Euclid's step: `b` may be replaced by its remainder modulo `a`, unless `a` divides a
/// nonzero `b`. In that case the remainder is zero and so is the right-hand side,
/// while the left-hand side is `a`.
pub proof fn lemma_gcd_remainder(a: nat, b: nat)
    requires
        a != 0,
        b == 0 || b % a != 0,
    ensures
        gcd_spec(a, b) == gcd_spec(a, b % a),
{
    if b == 0 {
        lemma_small_mod(0, a);
    } else {
        lemma_gcd_symmetric(a, b);
        lemma_gcd_is_greatest(b, a);
        lemma_greatest_common_divisor_step(gcd_spec(b, a), b, a);
        lemma_gcd_is_greatest(a, b % a);
        lemma_greatest_common_divisor_unique(gcd_spec(b, a), gcd_spec(a, b % a), a, b % a);
    }
}

/// The greatest common divisor of a positive number and a positive multiple of it is
/// the number itself.
pub proof fn lemma_gcd_of_multiple(a: nat, b: nat)
    requires
        a > 0,
        b > 0,
        b % a == 0,
    ensures
        gcd_spec(a, b) == a,
{
    lemma_gcd_is_greatest(a, b);
    lemma_mod_self_0(a as int);
    assert(is_common_divisor(a, a, b));
    lemma_divisor_is_bounded(gcd_spec(a, b), a);
}

/// Dividing two positive numbers by their greatest common divisor leaves two positive
/// numbers whose greatest common divisor is one.
pub proof fn lemma_gcd_of_reduced(a: nat, b: nat)
    requires
        a > 0,
        b > 0,
    ensures
        gcd_spec(a, b) > 0,
        a / gcd_spec(a, b) > 0,
        b / gcd_spec(a, b) > 0,
        gcd_spec(a, b) * (a / gcd_spec(a, b)) == a,
        gcd_spec(a, b) * (b / gcd_spec(a, b)) == b,
        gcd_spec(a / gcd_spec(a, b), b / gcd_spec(a, b)) == 1,
{
    let g = gcd_spec(a, b);
    lemma_gcd_is_greatest(a, b);
    let x = a / g;
    let y = b / g;
    lemma_fundamental_div_mod(a as int, g as int);
    lemma_fundamental_div_mod(b as int, g as int);
    assert(x > 0 && y > 0) by (nonlinear_arith)
        requires
            a == g * x,
            b == g * y,
            a > 0,
            b > 0,
    ;
    let h = gcd_spec(x, y);
    lemma_gcd_is_greatest(x, y);
    lemma_greatest_common_divisor_scales(g, h, x, y);
    lemma_greatest_common_divisor_unique(g * h, g, a, b);
    assert(h == 1) by (nonlinear_arith)
        requires
            g * h == g,
            g > 0,
    ;
}

/// A fraction has one representation in lowest terms: two fractions of equal value,
/// each with numerator and denominator of greatest common divisor one, are the same.
pub proof fn lemma_lowest_terms_unique(a: nat, b: nat, c: nat, d: nat)
    requires
        b > 0,
        d > 0,
        is_greatest_common_divisor(1, a, b),
        is_greatest_common_divisor(1, c, d),
        a * d == c * b,
    ensures
        a == c,
        b == d,
{
    lemma_greatest_common_divisor_scales(d, 1, a, b);
    lemma_greatest_common_divisor_scales(b, 1, c, d);
    assert(d * a == b * c && d * b == b * d) by (nonlinear_arith)
        requires
            a * d == c * b,
    ;
    lemma_greatest_common_divisor_unique(d * 1, b * 1, d * a, d * b);
    assert(b == d) by (nonlinear_arith)
        requires
            d * 1 == b * 1,
    ;
    assert(a == c) by (nonlinear_arith)
        requires
            a * d == c * b,
            b == d,
            d > 0,
    ;
}

/// Computes the greatest common divisor of `a` and `b`; zero if either is zero.
pub fn gcd(a: u64, b: u64) -> (g: u64)
    ensures
        g == gcd_spec(a as nat, b as nat),
        a == 0 || b == 0 ==> g == 0,
        a != 0 && b != 0 ==> is_greatest_common_divisor(g as nat, a as nat, b as nat),
{
    let (mut larger, mut smaller) = if a < b {
        (b, a)
    } else {
        (a, b)
    };

    if 0 == smaller {
        return 0;
    }
    while 0 != smaller
        invariant
            larger > 0,
            forall|d: nat|
                is_common_divisor(d, larger as nat, smaller as nat) <==> is_common_divisor(
                    d,
                    a as nat,
                    b as nat,
                ),
        decreases smaller,
    {
        let temp = smaller;
        proof {
            assert forall|d: nat|
                is_common_divisor(d, smaller as nat, (larger % smaller) as nat)
                    <==> is_common_divisor(d, a as nat, b as nat) by {
                lemma_common_divisor_step(d, larger as nat, smaller as nat);
            }
        }
        smaller = larger % smaller;
        larger = temp;
    }

    proof {
        assert(is_common_divisor(larger as nat, larger as nat, 0)) by {
            lemma_mod_self_0(larger as int);
        }
        assert forall|d: nat| is_common_divisor(d, a as nat, b as nat) implies d <= larger by {
            lemma_divisor_is_bounded(d, larger as nat);
        }
        lemma_greatest_common_divisor_unique(
            larger as nat,
            gcd_spec(a as nat, b as nat),
            a as nat,
            b as nat,
        );
    }
    larger
}

} // verus!

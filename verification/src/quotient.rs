//! Exact rational numbers in lowest terms.

use crate::decimal::append_decimal;
use crate::decimal::decimal;
use crate::fraction::lemma_same_value_transitive;
use crate::fraction::lemma_signed_scaled;
use crate::fraction::lemma_signed_times;
use crate::fraction::lemma_zero_numerators;
use crate::fraction::Fraction;
use crate::gcd::gcd;
use crate::gcd::gcd_spec;
use crate::gcd::lemma_gcd_is_greatest;
use crate::gcd::lemma_gcd_of_reduced;
use crate::gcd::lemma_gcd_symmetric;
use crate::gcd::lemma_gcd_with_one;
use crate::gcd::lemma_lowest_terms_unique;
use vstd::prelude::*;
use vstd::std_specs::ops::AddSpec;
use vstd::std_specs::ops::MulSpec;
use vstd::string::StringExecFns;

verus! {

/// A rational number: a numerator and a denominator, both magnitudes, and a sign.
///
/// Every quotient is in lowest terms, and zero is `0/1` with the positive sign, so two
/// quotients are equal exactly when they stand for the same number. The view of a
/// quotient is the fraction of its signed numerator and its denominator.
#[derive(Clone, Copy, Debug, PartialEq, Eq, Structural)]
pub struct Quotient {
    numerator: u64,
    denominator: u64,
    positive: bool,
}

impl View for Quotient {
    type V = Fraction;

    open spec fn view(&self) -> Fraction {
        Fraction::signed(self.numerator() as nat, self.denominator() as nat, self.is_positive())
    }
}

impl Quotient {
    /// The magnitude of the numerator.
    pub closed spec fn numerator_spec(&self) -> u64 {
        self.numerator
    }

    /// The denominator.
    pub closed spec fn denominator_spec(&self) -> u64 {
        self.denominator
    }

    /// Whether the sign is positive.
    pub closed spec fn is_positive_spec(&self) -> bool {
        self.positive
    }

    /// The denominator is not zero, numerator and denominator have no common divisor
    /// but one, and zero is `0/1` with the positive sign.
    #[verifier::type_invariant]
    pub open spec fn wf(&self) -> bool {
        &&& self.denominator() != 0
        &&& if self.numerator() == 0 {
            self.denominator() == 1 && self.is_positive()
        } else {
            gcd_spec(self.numerator() as nat, self.denominator() as nat) == 1
        }
    }

    /// The quotient in lowest terms that has the value of `f`, if there is one.
    pub open spec fn normal(f: Fraction) -> Quotient {
        choose|q: Quotient| q.wf() && q@.same_value(f)
    }

    /// The quotient that stands for zero.
    pub open spec fn zero_spec() -> Quotient {
        Quotient::normal(Fraction::whole(0))
    }

    /// What [`Quotient::new`] returns.
    pub open spec fn new_spec(dividend: u64, divisor: u64, positive: bool) -> Quotient {
        Quotient::normal(Fraction::signed(dividend as nat, divisor as nat, positive))
    }

    /// What [`Quotient::from_int`] returns.
    pub open spec fn from_int_spec(i: u64) -> Quotient {
        Quotient::normal(Fraction::whole(i as int))
    }

    /// What [`Quotient::negative`] returns.
    pub open spec fn negative_spec(&self) -> Quotient {
        Quotient::normal(self@.negated())
    }

    /// What [`Quotient::inverse`] returns.
    pub open spec fn inverse_spec(&self) -> Quotient {
        Quotient::normal(self@.reciprocal())
    }

    /// The text of this quotient: a minus sign if it is negative, the numerator in
    /// decimal notation and, unless the denominator is one, a slash and the
    /// denominator.
    pub open spec fn rendering(&self) -> Seq<char> {
        let sign = if self.is_positive() {
            Seq::<char>::empty()
        } else {
            seq!['-']
        };
        let bottom = if self.denominator() == 1 {
            Seq::<char>::empty()
        } else {
            seq!['/'] + decimal(self.denominator() as nat)
        };
        sign + decimal(self.numerator() as nat) + bottom
    }

    /// The magnitude of the numerator.
    #[verifier::when_used_as_spec(numerator_spec)]
    pub fn numerator(&self) -> (n: u64)
        ensures
            n == self.numerator_spec(),
    {
        self.numerator
    }

    /// The denominator.
    #[verifier::when_used_as_spec(denominator_spec)]
    pub fn denominator(&self) -> (d: u64)
        ensures
            d == self.denominator_spec(),
    {
        self.denominator
    }

    /// Whether the sign is positive. Zero is positive.
    #[verifier::when_used_as_spec(is_positive_spec)]
    pub fn is_positive(&self) -> (p: bool)
        ensures
            p == self.is_positive_spec(),
    {
        self.positive
    }

    /// The quotient that stands for zero: `0/1` with the positive sign.
    #[verifier::when_used_as_spec(zero_spec)]
    pub fn zero() -> (q: Quotient)
        ensures
            q == Quotient::zero_spec(),
            q.numerator() == 0,
            q.denominator() == 1,
            q.is_positive(),
    {
        let q = Quotient { numerator: 0, denominator: 1, positive: true };
        proof {
            lemma_normal_form(q, Fraction::whole(0));
        }
        q
    }

    /// Constructs the quotient of `dividend` and `divisor` in lowest terms: both are
    /// divided by their greatest common divisor. The quotient is negative unless
    /// `positive` or zero.
    pub fn new(dividend: u64, divisor: u64, positive: bool) -> (q: Quotient)
        requires
            divisor != 0,
        ensures
            q.wf(),
            q@.same_value(Fraction::signed(dividend as nat, divisor as nat, positive)),
            q == Quotient::new_spec(dividend, divisor, positive),
            dividend == 0 ==> q == Quotient::zero(),
            dividend != 0 ==> {
                &&& q.numerator() == dividend as nat / gcd_spec(dividend as nat, divisor as nat)
                &&& q.denominator() == divisor as nat / gcd_spec(dividend as nat, divisor as nat)
                &&& q.is_positive() == positive
            },
    {
        let gcd = gcd(dividend, divisor);

        let (numerator, denominator) = match gcd {
            0 => (0, 1),
            _ => (dividend / gcd, divisor / gcd),
        };

        proof {
            if dividend != 0 {
                lemma_gcd_of_reduced(dividend as nat, divisor as nat);
            }
        }
        let q = Quotient {
            numerator: numerator,
            denominator: denominator,
            positive: match numerator {
                0 => true,
                _ => positive,
            },
        };
        proof {
            let f = Fraction::signed(dividend as nat, divisor as nat, positive);
            if dividend != 0 {
                lemma_reduced_has_same_value(
                    dividend as nat,
                    divisor as nat,
                    gcd as nat,
                    numerator as nat,
                    denominator as nat,
                    positive,
                );
            } else {
                lemma_zero_numerators(q@, f);
                lemma_normal_form(q, Fraction::whole(0));
            }
            lemma_normal_form(q, f);
        }
        q
    }

    /// The whole number `i` as a quotient.
    pub fn from_int(i: u64) -> (q: Quotient)
        ensures
            q.wf(),
            q == Quotient::from_int_spec(i),
            q.numerator() == i,
            q.denominator() == 1,
            q.is_positive(),
            i == 0 ==> q == Quotient::zero(),
    {
        proof {
            if i != 0 {
                lemma_gcd_with_one(i as nat);
            }
        }
        Quotient::new(i, 1, true)
    }

    /// Returns the additive inverse of this quotient: the same magnitudes under the
    /// other sign, and zero for zero.
    pub fn negative(&self) -> (r: Quotient)
        ensures
            r.wf(),
            r == self.negative_spec(),
            r.numerator() == self.numerator(),
            r.denominator() == self.denominator(),
            r.is_positive() == (self.numerator() == 0 || !self.is_positive()),
    {
        proof {
            use_type_invariant(self);
            lemma_negative_parts(*self);
        }
        Quotient::new(self.numerator, self.denominator, !self.positive)
    }

    /// Returns the multiplicative inverse of this quotient: numerator and denominator
    /// change places and the sign stays.
    pub fn inverse(&self) -> (r: Quotient)
        requires
            self.numerator() != 0,
        ensures
            r.wf(),
            r == self.inverse_spec(),
            r.numerator() == self.denominator(),
            r.denominator() == self.numerator(),
            r.is_positive() == self.is_positive(),
    {
        proof {
            use_type_invariant(self);
            lemma_inverse_parts(*self);
            lemma_gcd_symmetric(self.numerator as nat, self.denominator as nat);
        }
        Quotient::new(self.denominator, self.numerator, self.positive)
    }

    /// Asserts that the representation is in lowest terms. This holds of every
    /// quotient, so nothing is left to test when the program runs.
    pub fn assert_valid(&self)
        ensures
            self.wf(),
    {
        proof {
            use_type_invariant(self);
        }
    }

    /// Formats this quotient as text, such as `2/3`, `-2/3`, `0` or `2`.
    pub fn render(&self) -> (text: String)
        ensures
            text@ == self.rendering(),
    {
        let mut text = String::new();
        if !self.positive {
            proof {
                reveal_strlit("-");
            }
            text.append("-");
        }
        append_decimal(&mut text, self.numerator);
        if self.denominator != 1 {
            proof {
                reveal_strlit("/");
            }
            text.append("/");
            append_decimal(&mut text, self.denominator);
        }
        text
    }
}

impl vstd::std_specs::ops::AddSpecImpl for Quotient {
    open spec fn obeys_add_spec() -> bool {
        true
    }

    /// The cross products and the common denominator fit in 64 bits, and where the
    /// signs agree so does the sum of the cross products.
    open spec fn add_req(self, rhs: Quotient) -> bool {
        &&& self.numerator() * rhs.denominator() <= u64::MAX
        &&& self.denominator() * rhs.numerator() <= u64::MAX
        &&& self.denominator() * rhs.denominator() <= u64::MAX
        &&& self.is_positive() == rhs.is_positive() ==> self.numerator() * rhs.denominator()
            + self.denominator() * rhs.numerator() <= u64::MAX
    }

    /// The sum in lowest terms.
    open spec fn add_spec(self, rhs: Quotient) -> Quotient {
        Quotient::normal(self@.plus(rhs@))
    }
}

/// Addition of quotients: over the product of the denominators, the cross products are
/// added where the signs agree, and else the smaller is taken from the larger, whose
/// sign the sum gets.
impl std::ops::Add for Quotient {
    type Output = Quotient;

    fn add(self, rhs: Quotient) -> (ret: Quotient)
        ensures
            ret.wf(),
            ret@.same_value(self@.plus(rhs@)),
            ret == Quotient::normal(self@.plus(rhs@)),
    {
        proof {
            use_type_invariant(&self);
            use_type_invariant(&rhs);
            lemma_product_is_positive(self.denominator as nat, rhs.denominator as nat);
        }
        let same_sign = self.positive == rhs.positive;

        let lhs_numerator = self.numerator * rhs.denominator;
        let rhs_numerator = self.denominator * rhs.numerator;
        let common_denominator = self.denominator * rhs.denominator;

        let (numerator, positive) = match same_sign {
            true => (lhs_numerator + rhs_numerator, self.positive),
            false => match rhs_numerator <= lhs_numerator {
                true => (lhs_numerator - rhs_numerator, self.positive),
                false => (rhs_numerator - lhs_numerator, !self.positive),
            },
        };

        proof {
            lemma_signed_scaled(self.numerator as nat, self.positive, rhs.denominator as nat);
            lemma_signed_scaled(rhs.numerator as nat, rhs.positive, self.denominator as nat);
            assert(Fraction::signed(numerator as nat, common_denominator as nat, positive)
                == self@.plus(rhs@));
        }
        Quotient::new(numerator, common_denominator, positive)
    }
}

impl vstd::std_specs::ops::SubSpecImpl for Quotient {
    open spec fn obeys_sub_spec() -> bool {
        true
    }

    /// The cross products and the common denominator fit in 64 bits, and where the
    /// signs differ so does the sum of the cross products.
    open spec fn sub_req(self, rhs: Quotient) -> bool {
        &&& self.numerator() * rhs.denominator() <= u64::MAX
        &&& self.denominator() * rhs.numerator() <= u64::MAX
        &&& self.denominator() * rhs.denominator() <= u64::MAX
        &&& self.is_positive() != rhs.is_positive() ==> self.numerator() * rhs.denominator()
            + self.denominator() * rhs.numerator() <= u64::MAX
    }

    /// The difference in lowest terms.
    open spec fn sub_spec(self, rhs: Quotient) -> Quotient {
        Quotient::normal(self@.minus(rhs@))
    }
}

/// Subtraction of quotients: the sum with the additive inverse.
impl std::ops::Sub for Quotient {
    type Output = Quotient;

    fn sub(self, rhs: Quotient) -> (ret: Quotient)
        ensures
            ret.wf(),
            ret@.same_value(self@.minus(rhs@)),
            ret == Quotient::normal(self@.minus(rhs@)),
    {
        proof {
            use_type_invariant(&rhs);
            assert(rhs.numerator == 0 ==> self.denominator * rhs.numerator == 0) by (nonlinear_arith);
        }
        self + rhs.negative()
    }
}

impl vstd::std_specs::ops::MulSpecImpl for Quotient {
    open spec fn obeys_mul_spec() -> bool {
        true
    }

    /// The product of the numerators and that of the denominators fit in 64 bits.
    open spec fn mul_req(self, rhs: Quotient) -> bool {
        &&& self.numerator() * rhs.numerator() <= u64::MAX
        &&& self.denominator() * rhs.denominator() <= u64::MAX
    }

    /// The product in lowest terms.
    open spec fn mul_spec(self, rhs: Quotient) -> Quotient {
        Quotient::normal(self@.times(rhs@))
    }
}

/// Multiplication of quotients: the product of the numerators over that of the
/// denominators, positive where the signs agree.
impl std::ops::Mul for Quotient {
    type Output = Quotient;

    fn mul(self, rhs: Quotient) -> (ret: Quotient)
        ensures
            ret.wf(),
            ret@.same_value(self@.times(rhs@)),
            ret == Quotient::normal(self@.times(rhs@)),
    {
        proof {
            use_type_invariant(&self);
            use_type_invariant(&rhs);
            lemma_product_is_positive(self.denominator as nat, rhs.denominator as nat);
            lemma_signed_times(
                self.numerator as nat,
                self.positive,
                rhs.numerator as nat,
                rhs.positive,
            );
        }
        let positive = self.positive == rhs.positive;

        Quotient::new(self.numerator * rhs.numerator, self.denominator * rhs.denominator, positive)
    }
}

impl vstd::std_specs::ops::DivSpecImpl for Quotient {
    open spec fn obeys_div_spec() -> bool {
        true
    }

    /// The divisor is not zero, and the products of each numerator with the other
    /// denominator fit in 64 bits.
    open spec fn div_req(self, rhs: Quotient) -> bool {
        &&& rhs.numerator() != 0
        &&& self.numerator() * rhs.denominator() <= u64::MAX
        &&& self.denominator() * rhs.numerator() <= u64::MAX
    }

    /// The ratio in lowest terms.
    open spec fn div_spec(self, rhs: Quotient) -> Quotient {
        Quotient::normal(self@.over(rhs@))
    }
}

/// Division of quotients: the product with the multiplicative inverse.
impl std::ops::Div for Quotient {
    type Output = Quotient;

    fn div(self, rhs: Quotient) -> (ret: Quotient)
        ensures
            ret.wf(),
            ret@.same_value(self@.over(rhs@)),
            ret == Quotient::normal(self@.over(rhs@)),
    {
        self * rhs.inverse()
    }
}

/// The product of two positive numbers is positive.
proof fn lemma_product_is_positive(a: nat, b: nat)
    requires
        a > 0,
        b > 0,
    ensures
        a * b > 0,
{
    assert(a * b > 0) by (nonlinear_arith)
        requires
            a > 0,
            b > 0,
    ;
}

/// Dividing dividend and divisor by a common divisor keeps the value of the fraction.
proof fn lemma_reduced_has_same_value(
    dividend: nat,
    divisor: nat,
    g: nat,
    numerator: nat,
    denominator: nat,
    positive: bool,
)
    requires
        g * numerator == dividend,
        g * denominator == divisor,
    ensures
        Fraction::signed(numerator, denominator, positive).same_value(
            Fraction::signed(dividend, divisor, positive),
        ),
{
    lemma_signed_scaled(numerator, positive, divisor);
    lemma_signed_scaled(dividend, positive, denominator);
    assert(numerator * divisor == dividend * denominator) by (nonlinear_arith)
        requires
            g * numerator == dividend,
            g * denominator == divisor,
    ;
}

/// Well-formed quotients of the same value are the same quotient.
pub proof fn lemma_canonical(a: Quotient, b: Quotient)
    requires
        a.wf(),
        b.wf(),
        a@.same_value(b@),
    ensures
        a == b,
{
    let n1 = a.numerator as nat;
    let d1 = a.denominator as nat;
    let n2 = b.numerator as nat;
    let d2 = b.denominator as nat;
    lemma_signed_scaled(n1, a.positive, d2);
    lemma_signed_scaled(n2, b.positive, d1);
    assert(n1 == 0 <==> n2 == 0) by (nonlinear_arith)
        requires
            d1 > 0,
            d2 > 0,
            n1 * d2 == n2 * d1,
    ;
    if n1 != 0 {
        lemma_product_is_positive(n1, d2);
        lemma_gcd_is_greatest(n1, d1);
        lemma_gcd_is_greatest(n2, d2);
        lemma_lowest_terms_unique(n1, d1, n2, d2);
    }
}

/// A well-formed quotient is the normal form of every fraction of its value.
pub proof fn lemma_normal_form(q: Quotient, f: Fraction)
    requires
        q.wf(),
        q@.same_value(f),
        f.den != 0,
    ensures
        Quotient::normal(f) == q,
{
    let normal = Quotient::normal(f);
    lemma_same_value_transitive(normal@, f, q@);
    lemma_canonical(normal, q);
}

/// Every fraction of two 64-bit magnitudes with a nonzero divisor has a normal form:
/// what [`Quotient::new`] returns is well-formed and has the value of the fraction.
pub proof fn lemma_new_is_normal(dividend: u64, divisor: u64, positive: bool)
    requires
        divisor != 0,
    ensures
        Quotient::new_spec(dividend, divisor, positive).wf(),
        Quotient::new_spec(dividend, divisor, positive)@.same_value(
            Fraction::signed(dividend as nat, divisor as nat, positive),
        ),
{
    let f = Fraction::signed(dividend as nat, divisor as nat, positive);
    if dividend == 0 {
        let zero = Quotient { numerator: 0, denominator: 1, positive: true };
        lemma_zero_numerators(zero@, f);
        lemma_normal_form(zero, f);
    } else {
        lemma_gcd_of_reduced(dividend as nat, divisor as nat);
        let g = gcd_spec(dividend as nat, divisor as nat);
        let x = dividend as nat / g;
        let y = divisor as nat / g;
        assert(x <= dividend && y <= divisor) by (nonlinear_arith)
            requires
                g > 0,
                g * x == dividend,
                g * y == divisor,
        ;
        let q = Quotient { numerator: x as u64, denominator: y as u64, positive: positive };
        lemma_reduced_has_same_value(dividend as nat, divisor as nat, g, x, y, positive);
        lemma_normal_form(q, f);
    }
}

/// Where the products fit in 64 bits, the product of two well-formed quotients is
/// well-formed and has the value of the product of their fractions.
pub proof fn lemma_product_is_normal(a: Quotient, b: Quotient)
    requires
        a.wf(),
        b.wf(),
        a.mul_req(b),
    ensures
        a.mul_spec(b).wf(),
        a.mul_spec(b)@.same_value(a@.times(b@)),
{
    let numerator = (a.numerator * b.numerator) as u64;
    let denominator = (a.denominator * b.denominator) as u64;
    lemma_product_is_positive(a.denominator as nat, b.denominator as nat);
    lemma_signed_times(a.numerator as nat, a.positive, b.numerator as nat, b.positive);
    lemma_new_is_normal(numerator, denominator, a.positive == b.positive);
}

/// The parts of a whole number: itself over one, positive.
pub proof fn lemma_from_int_parts(i: u64)
    ensures
        Quotient::from_int_spec(i).wf(),
        Quotient::from_int_spec(i).numerator() == i,
        Quotient::from_int_spec(i).denominator() == 1,
        Quotient::from_int_spec(i).is_positive(),
{
    let q = Quotient { numerator: i, denominator: 1, positive: true };
    if i != 0 {
        lemma_gcd_with_one(i as nat);
    }
    lemma_normal_form(q, Fraction::whole(i as int));
}

/// The parts of the additive inverse: the same magnitudes under the other sign, and
/// zero for zero.
pub proof fn lemma_negative_parts(q: Quotient)
    requires
        q.wf(),
    ensures
        q.negative_spec().wf(),
        q.negative_spec().numerator() == q.numerator(),
        q.negative_spec().denominator() == q.denominator(),
        q.negative_spec().is_positive() == (q.numerator() == 0 || !q.is_positive()),
{
    let r = Quotient {
        numerator: q.numerator,
        denominator: q.denominator,
        positive: q.numerator == 0 || !q.positive,
    };
    lemma_normal_form(r, q@.negated());
}

/// The parts of the multiplicative inverse of a quotient that is not zero: numerator
/// and denominator change places and the sign stays.
pub proof fn lemma_inverse_parts(q: Quotient)
    requires
        q.wf(),
        q.numerator() != 0,
    ensures
        q.inverse_spec().wf(),
        q.inverse_spec().numerator() == q.denominator(),
        q.inverse_spec().denominator() == q.numerator(),
        q.inverse_spec().is_positive() == q.is_positive(),
{
    let r = Quotient { numerator: q.denominator, denominator: q.numerator, positive: q.positive };
    lemma_gcd_symmetric(q.numerator as nat, q.denominator as nat);
    lemma_normal_form(r, q@.reciprocal());
}

/// Zero is unique: a well-formed quotient whose value is zero is [`Quotient::zero`].
pub proof fn lemma_zero_is_unique(q: Quotient)
    requires
        q.wf(),
        q@.same_value(Fraction::whole(0)),
    ensures
        q == Quotient::zero(),
{
    lemma_normal_form(q, Fraction::whole(0));
}

/// Zero is canonical: whatever the divisor and the sign, a zero dividend gives
/// [`Quotient::zero`].
pub proof fn lemma_zero_is_canonical(divisor: u64, positive: bool)
    requires
        divisor != 0,
    ensures
        Quotient::new_spec(0, divisor, positive) == Quotient::zero(),
{
    lemma_from_int_parts(0);
    let f = Fraction::signed(0, divisor as nat, positive);
    lemma_zero_numerators(Quotient::zero()@, f);
    lemma_normal_form(Quotient::zero(), f);
}

/// One is the identity of multiplication, and multiplying by one never leaves the
/// range of 64 bits.
pub proof fn lemma_multiplicative_identity(q: Quotient)
    requires
        q.wf(),
    ensures
        Quotient::from_int_spec(1).mul_req(q),
        Quotient::from_int_spec(1).mul_spec(q) == q,
{
    let one = Quotient::from_int_spec(1);
    lemma_from_int_parts(1);
    let product = one@.times(q@);
    assert(q@.same_value(product)) by (nonlinear_arith)
        requires
            product.num == 1 * q@.num,
            product.den == 1 * q@.den,
    ;
    lemma_normal_form(q, product);
}

/// Zero is the identity of addition, and adding to zero never leaves the range of
/// 64 bits.
pub proof fn lemma_additive_identity(q: Quotient)
    requires
        q.wf(),
    ensures
        Quotient::zero().add_req(q),
        Quotient::zero().add_spec(q) == q,
{
    lemma_from_int_parts(0);
    let sum = Quotient::zero()@.plus(q@);
    assert(q@.same_value(sum)) by (nonlinear_arith)
        requires
            sum.num == 0 * q@.den + q@.num * 1,
            sum.den == 1 * q@.den,
    ;
    lemma_normal_form(q, sum);
}

/// A quotient that is not zero, times its multiplicative inverse, is one.
pub proof fn lemma_multiplicative_inverse(q: Quotient)
    requires
        q.wf(),
        q.numerator() != 0,
    ensures
        q.mul_spec(q.inverse_spec()) == Quotient::from_int_spec(1),
{
    let one = Quotient::from_int_spec(1);
    let inverse = q.inverse_spec();
    lemma_from_int_parts(1);
    lemma_inverse_parts(q);
    lemma_signed_times(q.numerator as nat, q.positive, q.denominator as nat, q.positive);
    lemma_product_is_positive(q.numerator as nat, q.denominator as nat);
    let product = q@.times(inverse@);
    assert(one@.same_value(product)) by (nonlinear_arith)
        requires
            one@.num == 1,
            one@.den == 1,
            product.num == q.numerator * q.denominator,
            product.den == q.denominator * q.numerator,
    ;
    lemma_normal_form(one, product);
}

/// A quotient plus its additive inverse is zero.
pub proof fn lemma_additive_inverse(q: Quotient)
    requires
        q.wf(),
    ensures
        q.add_spec(q.negative_spec()) == Quotient::zero(),
{
    let negative = q.negative_spec();
    lemma_from_int_parts(0);
    lemma_negative_parts(q);
    let sum = q@.plus(negative@);
    assert(sum.num == 0 && sum.den != 0) by (nonlinear_arith)
        requires
            sum.num == q@.num * negative@.den + negative@.num * q@.den,
            sum.den == q@.den * negative@.den,
            negative@.num == -q@.num,
            negative@.den == q@.den,
            q@.den > 0,
    ;
    lemma_zero_numerators(Quotient::zero()@, sum);
    lemma_normal_form(Quotient::zero(), sum);
}

} // verus!

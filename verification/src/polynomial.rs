//! Polynomials of degree at most three with rational coefficients.

use crate::quotient::lemma_from_int_parts;
use crate::quotient::lemma_normal_form;
use crate::quotient::lemma_product_is_normal;
use crate::quotient::Quotient;
use vstd::prelude::*;
use vstd::std_specs::ops::DivSpec;
use vstd::std_specs::ops::MulSpec;
use vstd::string::StringExecFns;

verus! {

/// The number of coefficients: one more than the greatest degree.
pub const TOTAL_COEFFICIENTS: usize = 4;

/// A polynomial in one indeterminate with rational coefficients, of degree at most
/// three. Its view is the sequence of its four coefficients, that of degree `d` at
/// index `d`.
#[derive(Clone, Copy, Debug, PartialEq, Eq)]
pub struct Polynomial {
    coefficients: [Quotient; TOTAL_COEFFICIENTS],
}

impl View for Polynomial {
    type V = Seq<Quotient>;

    closed spec fn view(&self) -> Seq<Quotient> {
        self.coefficients@
    }
}

/// The coefficients of the derivative: that of degree `d` is the next one multiplied
/// by its degree `d + 1`, and the last coefficient is zero.
pub open spec fn derivative(c: Seq<Quotient>) -> Seq<Quotient> {
    Seq::new(
        TOTAL_COEFFICIENTS as nat,
        |d: int|
            if d < TOTAL_COEFFICIENTS - 1 {
                c[d + 1].mul_spec(Quotient::from_int_spec((d + 1) as u64))
            } else {
                Quotient::zero()
            },
    )
}

/// The coefficients of the integral whose constant term is zero: that of degree `d` is
/// the one before divided by `d`.
pub open spec fn integral(c: Seq<Quotient>) -> Seq<Quotient> {
    Seq::new(
        TOTAL_COEFFICIENTS as nat,
        |d: int|
            if d == 0 {
                Quotient::zero()
            } else {
                c[d - 1].div_spec(Quotient::from_int_spec(d as u64))
            },
    )
}

/// The text of a polynomial with indeterminate `x`, such as `2 + 3x + 5x^2 + 7x^3`. All
/// four terms are written, also those whose coefficient is zero.
pub open spec fn rendering(c: Seq<Quotient>) -> Seq<char> {
    c[0].rendering() + " + "@ + c[1].rendering() + "x + "@ + c[2].rendering() + "x^2 + "@
        + c[3].rendering() + "x^3"@
}

impl Polynomial {
    /// There are four coefficients, each of them well-formed.
    pub open spec fn wf(&self) -> bool {
        &&& self@.len() == TOTAL_COEFFICIENTS
        &&& forall|d: int| 0 <= d < TOTAL_COEFFICIENTS ==> (#[trigger] self@[d]).wf()
    }

    /// Constructs a polynomial from its coefficients, that of degree `d` at index `d`.
    pub fn new(coefficients: [Quotient; TOTAL_COEFFICIENTS]) -> (p: Polynomial)
        ensures
            p@ == coefficients@,
    {
        Polynomial { coefficients: coefficients }
    }

    /// The coefficient of the term of the given degree.
    pub fn coefficient(&self, degree: usize) -> (c: Quotient)
        requires
            degree < TOTAL_COEFFICIENTS,
        ensures
            c == self@[degree as int],
    {
        self.coefficients[degree]
    }

    /// Symbolic differentiation with respect to the indeterminate.
    ///
    /// Each numerator times the degree of its term has to fit in 64 bits.
    pub fn differentiate(&self) -> (r: Polynomial)
        requires
            forall|d: int|
                1 <= d < TOTAL_COEFFICIENTS ==> (#[trigger] self@[d]).numerator() * d <= u64::MAX,
        ensures
            r@ == derivative(self@),
    {
        let mut new_coefficients: [Quotient; TOTAL_COEFFICIENTS] = [Quotient::zero();TOTAL_COEFFICIENTS];

        for degree in 0..TOTAL_COEFFICIENTS - 1
            invariant
                forall|d: int|
                    1 <= d < TOTAL_COEFFICIENTS ==> (#[trigger] self@[d]).numerator() * d
                        <= u64::MAX,
                forall|d: int| 0 <= d < degree ==> new_coefficients@[d] == derivative(self@)[d],
                forall|d: int|
                    degree <= d < TOTAL_COEFFICIENTS ==> new_coefficients@[d] == Quotient::zero(),
        {
            let coefficient = self.coefficients[degree + 1];
            assert(coefficient == self@[degree + 1]);
            new_coefficients[degree] = coefficient * Quotient::from_int((degree + 1) as u64);
        }

        Polynomial::new(new_coefficients)
    }

    /// Symbolic integration with respect to the indeterminate; the constant term of the
    /// result is zero.
    ///
    /// The coefficient of degree three has to be zero, as the result has no place for a
    /// term of degree four, and each denominator times the degree that its term gets
    /// has to fit in 64 bits.
    pub fn integrate(&self) -> (r: Polynomial)
        requires
            self@[TOTAL_COEFFICIENTS - 1] == Quotient::zero(),
            forall|d: int|
                1 <= d < TOTAL_COEFFICIENTS ==> (#[trigger] self@[d - 1]).denominator() * d
                    <= u64::MAX,
        ensures
            r@ == integral(self@),
    {
        let mut new_coefficients: [Quotient; TOTAL_COEFFICIENTS] = [Quotient::zero();TOTAL_COEFFICIENTS];

        for degree in 1..TOTAL_COEFFICIENTS
            invariant
                forall|d: int|
                    1 <= d < TOTAL_COEFFICIENTS ==> (#[trigger] self@[d - 1]).denominator() * d
                        <= u64::MAX,
                forall|d: int| 0 <= d < degree ==> new_coefficients@[d] == integral(self@)[d],
                forall|d: int|
                    degree <= d < TOTAL_COEFFICIENTS ==> new_coefficients@[d] == Quotient::zero(),
        {
            let coefficient = self.coefficients[degree - 1];
            assert(coefficient == self@[degree - 1]);
            new_coefficients[degree] = coefficient / Quotient::from_int(degree as u64);
        }

        Polynomial::new(new_coefficients)
    }

    /// Formats this polynomial as text, with indeterminate `x`.
    pub fn render(&self) -> (text: String)
        ensures
            text@ == rendering(self@),
    {
        let mut text = self.coefficients[0].render();
        text.append(" + ");
        text.append(self.coefficients[1].render().as_str());
        text.append("x + ");
        text.append(self.coefficients[2].render().as_str());
        text.append("x^2 + ");
        text.append(self.coefficients[3].render().as_str());
        text.append("x^3");
        text
    }
}

/// Integrating the derivative gives back every coefficient but the constant term,
/// whatever the coefficient of degree three. Each numerator times the degree of its
/// term has to fit in 64 bits, which is what differentiating asks for.
pub proof fn lemma_integral_of_derivative(p: Polynomial)
    requires
        p.wf(),
        forall|d: int|
            1 <= d < TOTAL_COEFFICIENTS ==> (#[trigger] p@[d]).numerator() * d <= u64::MAX,
    ensures
        derivative(p@)[TOTAL_COEFFICIENTS - 1] == Quotient::zero(),
        forall|d: int| 1 <= d < TOTAL_COEFFICIENTS ==> integral(derivative(p@))[d] == p@[d],
{
    assert forall|d: int| 1 <= d < TOTAL_COEFFICIENTS implies integral(derivative(p@))[d]
        == p@[d] by {
        let coefficient = p@[d];
        let degree = Quotient::from_int_spec(d as u64);
        lemma_from_int_parts(d as u64);
        lemma_product_is_normal(coefficient, degree);
        let scaled = coefficient.mul_spec(degree);
        let ratio = scaled@.over(degree@);
        assert(coefficient@.same_value(ratio) && ratio.den != 0) by (nonlinear_arith)
            requires
                scaled@.same_value(coefficient@.times(degree@)),
                degree@.num == d,
                degree@.den == 1,
                d > 0,
                ratio.num == scaled@.num * 1,
                ratio.den == scaled@.den * d,
                scaled@.den > 0,
                coefficient@.den > 0,
        ;
        lemma_normal_form(coefficient, ratio);
    }
}

} // verus!

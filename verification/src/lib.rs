//! Exact rational arithmetic and calculus on polynomials of degree at most three.
//!
//! A [`Quotient`] is a fraction of two unsigned magnitudes and a sign, always held in
//! lowest terms. A [`Polynomial`] has four such coefficients and can be differentiated
//! and integrated symbolically.

pub mod decimal;
pub mod fraction;
pub mod gcd;
pub mod polynomial;
pub mod quotient;

pub use polynomial::Polynomial;
pub use quotient::Quotient;

use polynomial::derivative;
use polynomial::integral;
use polynomial::rendering;
use vstd::prelude::*;
use vstd::string::StringExecFns;

verus! {

/// The coefficients of the polynomial that [`demo_lines`] shows: `3 + 5x + 7x^2`.
pub open spec fn demo_coefficients() -> Seq<Quotient> {
    seq![
        Quotient::from_int_spec(3),
        Quotient::from_int_spec(5),
        Quotient::from_int_spec(7),
        Quotient::from_int_spec(0),
    ]
}

/// Shows what the crate does on the polynomial `3 + 5x + 7x^2`: one line of text for
/// the polynomial, one for its derivative and one for its integral.
pub fn demo_lines() -> (lines: [String; 3])
    ensures
        lines[0]@ == "We have a polynomial in Q[x], p(x) = "@ + rendering(demo_coefficients()),
        lines[1]@ == "We can differentiate it to get p'(x) = "@ + rendering(
            derivative(demo_coefficients()),
        ),
        lines[2]@ == "And we can integrate it to get I[p(x)] = "@ + rendering(
            integral(demo_coefficients()),
        ),
{
    let p = Polynomial::new(
        [Quotient::from_int(3), Quotient::from_int(5), Quotient::from_int(7), Quotient::from_int(0)],
    );

    let mut shown = String::from_str("We have a polynomial in Q[x], p(x) = ");
    shown.append(p.render().as_str());
    let mut differentiated = String::from_str("We can differentiate it to get p'(x) = ");
    differentiated.append(p.differentiate().render().as_str());
    let mut integrated = String::from_str("And we can integrate it to get I[p(x)] = ");
    integrated.append(p.integrate().render().as_str());
    [shown, differentiated, integrated]
}

} // verus!

use rational_poly::gcd::gcd;
use rational_poly::Quotient;

fn parts(q: Quotient) -> (u64, u64, bool) {
    (q.numerator(), q.denominator(), q.is_positive())
}

#[test]
fn test_quotient() {
    let zero = Quotient::zero();
    assert_eq!((0, 1, true), parts(zero));
    assert_eq!(zero, Quotient::zero());
    assert_eq!(zero, Quotient::new(0, 1, true));
    assert_eq!(zero, Quotient::new(0, 2, true));
    assert_eq!(zero, Quotient::new(0, 1, false));
    assert_eq!(zero, zero * zero);

    let one = Quotient::new(1, 1, true);
    assert_eq!((1, 1, true), parts(one));
    assert_eq!(one, Quotient::new(1, 1, true));
    assert_eq!(one, Quotient::new(6, 6, true));
    assert_eq!(one, one * one);

    let negative_one = Quotient::new(1, 1, false);
    assert_eq!((1, 1, false), parts(negative_one));
    assert_eq!(negative_one, Quotient::new(1, 1, false));
    assert_eq!(negative_one, Quotient::new(2, 2, false));
    assert_eq!(negative_one, negative_one * one);
    assert_eq!(negative_one, one * negative_one);

    let two_fifths = Quotient::new(2, 5, true);
    assert_eq!((2, 5, true), parts(two_fifths));
    assert_eq!(two_fifths, Quotient::new(2, 5, true));
    assert_eq!(two_fifths, Quotient::new(4, 10, true));
    assert_eq!(two_fifths, zero + two_fifths);
    assert_eq!(two_fifths, one * two_fifths);
    assert_eq!(two_fifths, two_fifths * one);

    let four_fifths = Quotient::new(4, 5, true);
    assert_eq!((4, 5, true), parts(four_fifths));
    assert_eq!(four_fifths, two_fifths + two_fifths);

    let negative_two_fifths = Quotient::new(2, 5, false);
    assert_eq!((2, 5, false), parts(negative_two_fifths));
    assert_eq!(zero, two_fifths + negative_two_fifths);
    assert_eq!(two_fifths, four_fifths + negative_two_fifths);

    assert_eq!(zero, one * zero);
    assert_eq!(zero, zero * one);
    assert_eq!(one, four_fifths * four_fifths + (one - two_fifths) * (one - two_fifths));
}

#[test]
fn new_reduces_to_lowest_terms() {
    assert_eq!((2, 5, true), parts(Quotient::new(4, 10, true)));
    assert_eq!((2, 5, false), parts(Quotient::new(4, 10, false)));
    assert_eq!((3, 1, true), parts(Quotient::new(39, 13, true)));
    assert_eq!((1, 3, false), parts(Quotient::new(13, 39, false)));
    assert_eq!((7, 9, true), parts(Quotient::new(7, 9, true)));
    assert_eq!((1, 1, true), parts(Quotient::new(u64::MAX, u64::MAX, true)));
    assert_eq!((u64::MAX, 1, false), parts(Quotient::new(u64::MAX, 1, false)));
}

#[test]
fn new_keeps_the_invariants() {
    let samples: [(u64, u64, bool); 7] = [
        (0, 1, true),
        (0, 9, false),
        (4, 10, true),
        (10, 4, false),
        (1, u64::MAX, true),
        (1 << 40, 1 << 20, false),
        (360, 84, true),
    ];
    for (dividend, divisor, positive) in samples {
        let q = Quotient::new(dividend, divisor, positive);
        q.assert_valid();
        assert_ne!(0, q.denominator());
        if q.numerator() == 0 {
            assert_eq!(1, q.denominator());
            assert!(q.is_positive());
        } else {
            assert_eq!(1, gcd(q.numerator(), q.denominator()));
            assert_eq!(positive, q.is_positive());
        }
        assert_eq!(
            q.numerator() as u128 * divisor as u128,
            dividend as u128 * q.denominator() as u128
        );
    }
}

#[test]
fn zero_is_canonical() {
    let zero = Quotient::new(0, 1, true);
    assert_eq!(zero, Quotient::new(0, 7, false));
    assert_eq!(zero, Quotient::new(0, 7, true));
    assert_eq!(zero, Quotient::new(0, u64::MAX, false));
    assert_eq!(zero, Quotient::from_int(0));
    assert_eq!(zero, Quotient::zero());
    assert_eq!((0, 1, true), parts(Quotient::new(0, 7, false)));
}

#[test]
fn from_int_is_the_number_over_one() {
    assert_eq!((0, 1, true), parts(Quotient::from_int(0)));
    assert_eq!((7, 1, true), parts(Quotient::from_int(7)));
    assert_eq!((u64::MAX, 1, true), parts(Quotient::from_int(u64::MAX)));
    assert_eq!(Quotient::new(14, 2, true), Quotient::from_int(7));
}

#[test]
fn negative_flips_the_sign_but_for_zero() {
    assert_eq!((2, 5, false), parts(Quotient::new(2, 5, true).negative()));
    assert_eq!((2, 5, true), parts(Quotient::new(2, 5, false).negative()));
    assert_eq!((0, 1, true), parts(Quotient::zero().negative()));
}

#[test]
fn inverse_swaps_numerator_and_denominator() {
    assert_eq!((5, 2, true), parts(Quotient::new(2, 5, true).inverse()));
    assert_eq!((5, 2, false), parts(Quotient::new(2, 5, false).inverse()));
    assert_eq!((1, 7, true), parts(Quotient::from_int(7).inverse()));
    assert_eq!((7, 1, false), parts(Quotient::new(1, 7, false).inverse()));
}

#[test]
fn one_and_zero_are_identities() {
    let one = Quotient::from_int(1);
    let zero = Quotient::zero();
    let samples = [
        Quotient::zero(),
        Quotient::from_int(1),
        Quotient::new(2, 5, true),
        Quotient::new(2, 5, false),
        Quotient::new(u64::MAX, 3, false),
        Quotient::new(3, u64::MAX, true),
    ];
    for q in samples {
        assert_eq!(q, one * q);
        assert_eq!(q, zero + q);
    }
}

#[test]
fn inverses_cancel() {
    let one = Quotient::from_int(1);
    let zero = Quotient::zero();
    let samples = [
        Quotient::from_int(1),
        Quotient::new(2, 5, true),
        Quotient::new(2, 5, false),
        Quotient::new(1 << 31, 3, false),
        Quotient::new(7, 1 << 20, true),
    ];
    for q in samples {
        assert_eq!(one, q * q.inverse());
        assert_eq!(zero, q + q.negative());
    }
    assert_eq!(zero, zero + zero.negative());
}

#[test]
fn addition_of_mixed_signs() {
    let half = Quotient::new(1, 2, true);
    let third = Quotient::new(1, 3, true);
    assert_eq!((5, 6, true), parts(half + third));
    assert_eq!((1, 6, true), parts(half + third.negative()));
    assert_eq!((1, 6, false), parts(half.negative() + third));
    assert_eq!((5, 6, false), parts(half.negative() + third.negative()));
    assert_eq!((0, 1, true), parts(half.negative() + half));
    assert_eq!((0, 1, true), parts(half + half.negative()));
    assert_eq!((1, 1, true), parts(half + half));
}

#[test]
fn subtraction_and_division() {
    let half = Quotient::new(1, 2, true);
    let third = Quotient::new(1, 3, true);
    let three_quarters = Quotient::new(3, 4, true);
    assert_eq!((1, 6, true), parts(half - third));
    assert_eq!((1, 6, false), parts(third - half));
    assert_eq!((0, 1, true), parts(half - half));
    assert_eq!((5, 6, true), parts(half - third.negative()));
    assert_eq!((2, 3, true), parts(half / three_quarters));
    assert_eq!((3, 2, false), parts(three_quarters / half.negative()));
    assert_eq!((0, 1, true), parts(Quotient::zero() / third));
    assert_eq!((5, 2, true), parts(Quotient::from_int(5) / Quotient::from_int(2)));
}

#[test]
fn multiplication_combines_the_signs() {
    let two_thirds = Quotient::new(2, 3, true);
    let three_quarters = Quotient::new(3, 4, false);
    assert_eq!((1, 2, false), parts(two_thirds * three_quarters));
    assert_eq!((1, 2, false), parts(three_quarters * two_thirds));
    assert_eq!((9, 16, true), parts(three_quarters * three_quarters));
    assert_eq!((0, 1, true), parts(three_quarters * Quotient::zero()));
}

#[test]
fn rendering_of_quotients() {
    assert_eq!("2/5", Quotient::new(2, 5, true).render());
    assert_eq!("-1", Quotient::new(1, 1, false).render());
    assert_eq!("0", Quotient::zero().render());
    assert_eq!("-2/5", Quotient::new(2, 5, false).render());
    assert_eq!("7", Quotient::from_int(7).render());
    assert_eq!("0", Quotient::new(0, 9, false).render());
    assert_eq!("-10/101", Quotient::new(10, 101, false).render());
    assert_eq!(
        "18446744073709551615/18446744073709551614",
        Quotient::new(u64::MAX, u64::MAX - 1, true).render()
    );
}

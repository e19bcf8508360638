use rational_poly::gcd::gcd;

#[test]
fn test_gcd() {
    assert_eq!(0, gcd(0, 0));
    assert_eq!(0, gcd(0, 1));
    assert_eq!(0, gcd(1, 0));
    assert_eq!(1, gcd(1, 1));
    assert_eq!(1, gcd(1, 90));
    assert_eq!(3, gcd(3, 6));
    assert_eq!(3, gcd(6, 9));
    assert_eq!(3, gcd(15, 39));
}

#[test]
fn gcd_does_not_depend_on_the_order() {
    let pairs: [(u64, u64); 6] = [(0, 0), (0, 5), (3, 6), (6, 9), (15, 39), (17, 1000)];
    for (a, b) in pairs {
        assert_eq!(gcd(a, b), gcd(b, a));
    }
}

#[test]
fn gcd_survives_taking_the_remainder() {
    assert_eq!(gcd(6, 9), gcd(6, 9 % 6));
    assert_eq!(gcd(15, 39), gcd(15, 39 % 15));
    assert_eq!(gcd(39, 15), gcd(39, 15 % 39));
    assert_eq!(gcd(7, 0), gcd(7, 0 % 7));
}

#[test]
fn gcd_of_a_multiple_is_not_that_of_its_zero_remainder() {
    assert_eq!(3, gcd(3, 6));
    assert_eq!(0, gcd(3, 6 % 3));
}

#[test]
fn gcd_of_large_numbers() {
    assert_eq!(u64::MAX, gcd(u64::MAX, u64::MAX));
    assert_eq!(1, gcd(u64::MAX, u64::MAX - 1));
    assert_eq!(1 << 32, gcd(1 << 63, 3 << 32));
    assert_eq!(6, gcd(2 * 3 * 5 * 7, 2 * 3 * 11 * 13));
}

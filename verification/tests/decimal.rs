use rational_poly::decimal::append_decimal;

fn decimal_text(n: u64) -> String {
    let mut text = String::new();
    append_decimal(&mut text, n);
    text
}

#[test]
fn decimal_notation_of_small_and_large_numbers() {
    assert_eq!("0", decimal_text(0));
    assert_eq!("7", decimal_text(7));
    assert_eq!("9", decimal_text(9));
    assert_eq!("10", decimal_text(10));
    assert_eq!("1234567890", decimal_text(1234567890));
    assert_eq!("18446744073709551615", decimal_text(u64::MAX));
}

#[test]
fn decimal_notation_is_appended() {
    let mut text = String::from("x^");
    append_decimal(&mut text, 3);
    append_decimal(&mut text, 40);
    assert_eq!("x^340", text);
}

use fan_control::decimal::to_decimal;

#[test]
fn to_decimal_writes_one_two_and_three_digits() {
    assert_eq!(to_decimal(0), "0");
    assert_eq!(to_decimal(7), "7");
    assert_eq!(to_decimal(9), "9");
    assert_eq!(to_decimal(10), "10");
    assert_eq!(to_decimal(42), "42");
    assert_eq!(to_decimal(99), "99");
    assert_eq!(to_decimal(100), "100");
    assert_eq!(to_decimal(109), "109");
    assert_eq!(to_decimal(200), "200");
    assert_eq!(to_decimal(255), "255");
}

#[test]
fn to_decimal_agrees_with_the_standard_notation() {
    for n in 0..=255u8 {
        assert_eq!(to_decimal(n), n.to_string());
    }
}

use humanize::decimal::{decimal_string, digit_str, signed_decimal_string};

#[test]
fn digits_are_written_one_by_one() {
    let all: Vec<&str> = (0..10u8).map(digit_str).collect();
    assert_eq!(all, vec!["0", "1", "2", "3", "4", "5", "6", "7", "8", "9"]);
}

#[test]
fn decimal_string_agrees_with_the_standard_notation() {
    for n in [0u128, 1, 9, 10, 11, 99, 100, 101, 1_000, 65_535, 4_294_967_296, u128::MAX] {
        assert_eq!(decimal_string(n), n.to_string());
    }
    assert_eq!(decimal_string(1_002_003), "1002003");
    assert_eq!(decimal_string(u128::MAX), "340282366920938463463374607431768211455");
}

#[test]
fn signed_decimal_string_puts_a_minus_before_negative_numbers() {
    for n in [0i64, 1, -1, 10, -10, 123_456, -123_456, i64::MAX, i64::MIN] {
        assert_eq!(signed_decimal_string(n), n.to_string());
    }
    assert_eq!(signed_decimal_string(-5), "-5");
    assert_eq!(signed_decimal_string(i64::MIN), "-9223372036854775808");
}

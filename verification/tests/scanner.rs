use serde_lson::parser::{neg_decimal, pos_decimal, Int};
use serde_lson::ser::to_string;
use serde_lson::value::Value;

#[test]
fn digits_are_read_as_a_magnitude() {
    assert_eq!(pos_decimal("0"), Some(Int::new(false, 0)));
    assert_eq!(pos_decimal("321"), Some(Int::new(false, 321)));
    assert_eq!(pos_decimal("007"), Some(Int::new(false, 7)));
}

#[test]
fn signed_digits_are_read_as_a_negative_magnitude() {
    assert_eq!(neg_decimal("-128"), Some(Int::new(true, 128)));
    assert_eq!(neg_decimal("-0"), Some(Int::new(true, 0)));
}

#[test]
fn largest_magnitude_is_read_and_one_more_is_not() {
    let max = "340282366920938463463374607431768211455";
    let over = "340282366920938463463374607431768211456";
    assert_eq!(pos_decimal(max), Some(Int::new(false, u128::MAX)));
    assert_eq!(pos_decimal(over), None);
    assert_eq!(neg_decimal(&format!("-{}", max)), Some(Int::new(true, u128::MAX)));
    assert_eq!(neg_decimal(&format!("-{}", over)), None);
    assert_eq!(pos_decimal("9999999999999999999999999999999999999999999999"), None);
}

#[test]
fn other_texts_are_no_literal() {
    assert_eq!(pos_decimal(""), None);
    assert_eq!(pos_decimal("12a"), None);
    assert_eq!(pos_decimal("-12"), None);
    assert_eq!(pos_decimal("1.5"), None);
    assert_eq!(pos_decimal("１２"), None);
    assert_eq!(neg_decimal(""), None);
    assert_eq!(neg_decimal("-"), None);
    assert_eq!(neg_decimal("12"), None);
    assert_eq!(neg_decimal("--1"), None);
    assert_eq!(neg_decimal("-1 "), None);
}

#[test]
fn written_integers_read_back() {
    for v in [0u128, 5, 10, 128, 1_000_000, u128::MAX] {
        let written = to_string(&Value::Integer(Int::from_u128(v))).unwrap();
        assert_eq!(pos_decimal(&written), Some(Int::new(false, v)));
    }
    for v in [-1i128, -128, i128::MIN] {
        let written = to_string(&Value::Integer(Int::from_i128(v))).unwrap();
        assert_eq!(neg_decimal(&written), Some(Int::from_i128(v)));
    }
}

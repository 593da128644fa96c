use serde_lson::parser::Int;
use serde_lson::ser::{to_string, Serializer};
use serde_lson::value::Value;

fn written<F: FnOnce(&mut Serializer)>(f: F) -> String {
    let mut s = Serializer::new("  ".to_string(), false);
    f(&mut s);
    s.into_output()
}

#[test]
fn same_value_in_every_width_gives_the_same_text() {
    let expected = "100";
    assert_eq!(written(|s| s.serialize_i8(100).unwrap()), expected);
    assert_eq!(written(|s| s.serialize_i16(100).unwrap()), expected);
    assert_eq!(written(|s| s.serialize_i32(100).unwrap()), expected);
    assert_eq!(written(|s| s.serialize_i64(100).unwrap()), expected);
    assert_eq!(written(|s| s.serialize_i128(100).unwrap()), expected);
    assert_eq!(written(|s| s.serialize_u8(100).unwrap()), expected);
    assert_eq!(written(|s| s.serialize_u16(100).unwrap()), expected);
    assert_eq!(written(|s| s.serialize_u32(100).unwrap()), expected);
    assert_eq!(written(|s| s.serialize_u64(100).unwrap()), expected);
    assert_eq!(written(|s| s.serialize_u128(100).unwrap()), expected);
    assert_eq!(written(|s| s.serialize_int(&Int::new(false, 100)).unwrap()), expected);
}

#[test]
fn same_negative_value_in_every_signed_width_gives_the_same_text() {
    let expected = "-128";
    assert_eq!(written(|s| s.serialize_i8(-128).unwrap()), expected);
    assert_eq!(written(|s| s.serialize_i16(-128).unwrap()), expected);
    assert_eq!(written(|s| s.serialize_i32(-128).unwrap()), expected);
    assert_eq!(written(|s| s.serialize_i64(-128).unwrap()), expected);
    assert_eq!(written(|s| s.serialize_i128(-128).unwrap()), expected);
    assert_eq!(written(|s| s.serialize_int(&Int::new(true, 128)).unwrap()), expected);
}

#[test]
fn bounds_of_each_width() {
    assert_eq!(written(|s| s.serialize_i8(i8::MAX).unwrap()), "127");
    assert_eq!(written(|s| s.serialize_u8(u8::MAX).unwrap()), "255");
    assert_eq!(written(|s| s.serialize_i16(i16::MIN).unwrap()), "-32768");
    assert_eq!(written(|s| s.serialize_u16(u16::MAX).unwrap()), "65535");
    assert_eq!(written(|s| s.serialize_i32(i32::MIN).unwrap()), "-2147483648");
    assert_eq!(written(|s| s.serialize_u32(u32::MAX).unwrap()), "4294967295");
    assert_eq!(written(|s| s.serialize_i64(i64::MIN).unwrap()), "-9223372036854775808");
    assert_eq!(written(|s| s.serialize_u64(u64::MAX).unwrap()), "18446744073709551615");
    assert_eq!(
        written(|s| s.serialize_i128(i128::MIN).unwrap()),
        "-170141183460469231731687303715884105728"
    );
    assert_eq!(
        written(|s| s.serialize_i128(i128::MAX).unwrap()),
        "170141183460469231731687303715884105727"
    );
    assert_eq!(
        written(|s| s.serialize_u128(u128::MAX).unwrap()),
        "340282366920938463463374607431768211455"
    );
}

#[test]
fn zero_and_small_numbers() {
    assert_eq!(written(|s| s.serialize_u8(0).unwrap()), "0");
    assert_eq!(written(|s| s.serialize_i64(-1).unwrap()), "-1");
    assert_eq!(written(|s| s.serialize_u32(9).unwrap()), "9");
    assert_eq!(written(|s| s.serialize_u32(10).unwrap()), "10");
    assert_eq!(written(|s| s.serialize_u32(1000).unwrap()), "1000");
    assert_eq!(written(|s| s.serialize_u32(1234567890).unwrap()), "1234567890");
}

#[test]
fn negative_zero_is_written_as_zero() {
    assert_eq!(written(|s| s.serialize_int(&Int::new(true, 0)).unwrap()), "0");
    assert_eq!(to_string(&Value::Integer(Int::new(true, 0))).unwrap(), "0");
}

#[test]
fn integer_value_agrees_with_the_width_methods() {
    for v in [i128::MIN, -1000, -10, -1, 0, 1, 9, 10, 99, 100, 12345, i128::MAX] {
        let by_value = to_string(&Value::Integer(Int::from_i128(v))).unwrap();
        assert_eq!(by_value, written(|s| s.serialize_i128(v).unwrap()));
        assert_eq!(by_value, v.to_string());
    }
    for v in [0u128, 1, 255, 256, u128::MAX] {
        let by_value = to_string(&Value::Integer(Int::from_u128(v))).unwrap();
        assert_eq!(by_value, written(|s| s.serialize_u128(v).unwrap()));
        assert_eq!(by_value, v.to_string());
    }
}

#[test]
fn int_from_signed_holds_sign_and_magnitude() {
    assert_eq!(Int::from_i128(-5), Int::new(true, 5));
    assert_eq!(Int::from_i128(5), Int::new(false, 5));
    assert_eq!(Int::from_i128(0), Int::new(false, 0));
    assert_eq!(Int::from_i128(i128::MIN), Int::new(true, 1u128 << 127));
    assert_eq!(Int::from_u128(u128::MAX), Int::new(false, u128::MAX));
}

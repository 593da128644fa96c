use serde_lson::parser::Int;
use serde_lson::ser::{to_string, to_string_pretty};
use serde_lson::value::Value;

fn integer(v: i128) -> Value {
    Value::Integer(Int { negative: v < 0, value: v.unsigned_abs() })
}

fn text(s: &str) -> Value {
    Value::String(s.to_string())
}

#[test]
fn signed_byte_minimum_is_written_in_full() {
    assert_eq!(to_string(&integer(i128::from(-128i8))).unwrap(), "-128");
}

#[test]
fn pretty_map_with_identifier_key() {
    let map = Value::Mapping(vec![(text("FOO"), integer(52))]);
    assert_eq!(to_string_pretty(&map).unwrap(), "{\n  FOO = 52\n}");
}

#[test]
fn reserved_word_key_is_bracketed() {
    let map = Value::Mapping(vec![(text("function"), integer(1))]);
    assert_eq!(to_string(&map).unwrap(), "{ [\"function\"] = 1 }");
}

#[test]
fn compact_sequence_of_booleans_and_nil() {
    let seq = Value::Sequence(vec![Value::Boolean(true), Value::Boolean(false), Value::Nil]);
    assert_eq!(to_string(&seq).unwrap(), "{ true, false, nil }");
}

#[test]
fn bytes_stay_on_one_line_inside_a_pretty_map() {
    let map = Value::Mapping(vec![(text("data"), Value::Bytes(vec![1, 2, 3]))]);
    assert_eq!(to_string_pretty(&map).unwrap(), "{\n  data = { 1, 2, 3 }\n}");
}

#[test]
fn newtype_variant_is_tagged_outside() {
    let v = Value::NewtypeVariant("Point".to_string(), Box::new(integer(5)));
    assert_eq!(to_string(&v).unwrap(), "{ Point = 5 }");
}

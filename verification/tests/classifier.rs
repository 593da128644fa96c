use serde_lson::parser::Int;
use serde_lson::ser::{to_string, to_string_pretty};
use serde_lson::type_ser::{compute_type, Serializer, Type};
use serde_lson::value::Value;

fn samples() -> Vec<(Value, Type)> {
    vec![
        (Value::Nil, Type::Nil),
        (Value::Absent, Type::Nil),
        (Value::Boolean(true), Type::Bool),
        (Value::Integer(Int::from_i128(-3)), Type::Int),
        (Value::Float("2.5".to_string()), Type::Float),
        (Value::Char('c'), Type::String),
        (Value::String("s".to_string()), Type::String),
        (Value::UnitVariant("U".to_string()), Type::String),
        (Value::Bytes(vec![1]), Type::Table),
        (Value::Sequence(vec![]), Type::Table),
        (Value::Mapping(vec![]), Type::Table),
        (Value::Struct(vec![]), Type::Table),
        (Value::NewtypeVariant("N".to_string(), Box::new(Value::Nil)), Type::Table),
        (Value::TupleVariant("T".to_string(), vec![]), Type::Table),
        (Value::StructVariant("S".to_string(), vec![]), Type::Table),
        (Value::Present(Box::new(Value::Nil)), Type::Nil),
        (Value::Present(Box::new(Value::String("s".to_string()))), Type::String),
        (Value::Present(Box::new(Value::Present(Box::new(Value::Sequence(vec![]))))), Type::Table),
    ]
}

#[test]
fn each_kind_is_classified() {
    for (value, kind) in samples() {
        assert_eq!(compute_type(&value), Ok(kind), "{:?}", value);
    }
}

#[test]
fn classification_is_the_same_before_and_after_encoding() {
    for (value, _) in samples() {
        let before = compute_type(&value).unwrap();
        let compact = to_string(&value).unwrap();
        let between = compute_type(&value).unwrap();
        let pretty = to_string_pretty(&value).unwrap();
        let after = compute_type(&value).unwrap();
        assert_eq!(before, between);
        assert_eq!(before, after);
        assert_eq!(compact, to_string(&value).unwrap());
        assert_eq!(pretty, to_string_pretty(&value).unwrap());
    }
}

#[test]
fn classifier_forgets_what_it_held() {
    let mut classifier = Serializer { output: Type::Table };
    Value::Boolean(false).classify(&mut classifier).unwrap();
    assert_eq!(classifier.output, Type::Bool);
    Value::Present(Box::new(Value::Char('x'))).classify(&mut classifier).unwrap();
    assert_eq!(classifier.output, Type::String);
    Value::Absent.classify(&mut classifier).unwrap();
    assert_eq!(classifier.output, Type::Nil);
}

#[test]
fn classifier_write_replaces_the_slot() {
    let mut classifier = Serializer { output: Type::Nil };
    classifier.write(Type::Float).unwrap();
    assert_eq!(classifier.output, Type::Float);
    classifier.write(Type::Int).unwrap();
    assert_eq!(classifier.output, Type::Int);
}

#[test]
fn classifier_methods_record_their_kind() {
    let mut c = Serializer { output: Type::Nil };
    c.serialize_bool(true).unwrap();
    assert_eq!(c.output, Type::Bool);
    c.serialize_int().unwrap();
    assert_eq!(c.output, Type::Int);
    c.serialize_float().unwrap();
    assert_eq!(c.output, Type::Float);
    c.serialize_char('a').unwrap();
    assert_eq!(c.output, Type::String);
    c.serialize_unit().unwrap();
    assert_eq!(c.output, Type::Nil);
    c.serialize_str("a").unwrap();
    assert_eq!(c.output, Type::String);
    c.serialize_bytes(&[1, 2]).unwrap();
    assert_eq!(c.output, Type::Table);
    c.serialize_none().unwrap();
    assert_eq!(c.output, Type::Nil);
    c.serialize_unit_variant("V").unwrap();
    assert_eq!(c.output, Type::String);
    c.serialize_table().unwrap();
    assert_eq!(c.output, Type::Table);
    c.serialize_some(&Value::Integer(Int::from_u128(1))).unwrap();
    assert_eq!(c.output, Type::Int);
}

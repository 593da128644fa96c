use serde_lson::parser::Int;
use serde_lson::ser::{to_string, to_string_pretty, Serializer};
use serde_lson::value::Value;

fn integer(v: i128) -> Value {
    Value::Integer(Int::from_i128(v))
}

fn text(s: &str) -> Value {
    Value::String(s.to_string())
}

fn one_entry(key: Value) -> Value {
    Value::Mapping(vec![(key, integer(1))])
}

#[test]
fn identifier_key_is_bare() {
    assert_eq!(to_string(&one_entry(text("name"))).unwrap(), "{ name = 1 }");
    assert_eq!(to_string(&one_entry(text("_x9"))).unwrap(), "{ _x9 = 1 }");
}

#[test]
fn every_reserved_word_key_is_quoted_and_bracketed() {
    let words = [
        "and", "break", "do", "else", "elseif", "end", "false", "for", "function", "goto", "if",
        "in", "local", "nil", "not", "or", "repeat", "return", "then", "true", "until", "while",
    ];
    for word in words {
        let expected = format!("{{ [\"{}\"] = 1 }}", word);
        assert_eq!(to_string(&one_entry(text(word))).unwrap(), expected);
    }
}

#[test]
fn key_that_is_no_identifier_is_quoted_and_bracketed() {
    assert_eq!(to_string(&one_entry(text(""))).unwrap(), "{ [\"\"] = 1 }");
    assert_eq!(to_string(&one_entry(text("1st"))).unwrap(), "{ [\"1st\"] = 1 }");
    assert_eq!(to_string(&one_entry(text("a b"))).unwrap(), "{ [\"a b\"] = 1 }");
    assert_eq!(to_string(&one_entry(text("a\"b"))).unwrap(), "{ [\"a\\\"b\"] = 1 }");
    assert_eq!(to_string(&one_entry(text("k[0]"))).unwrap(), "{ [\"k\\[0\\]\"] = 1 }");
}

#[test]
fn string_key_form_is_the_same_in_both_layouts() {
    assert_eq!(to_string_pretty(&one_entry(text("name"))).unwrap(), "{\n  name = 1\n}");
    assert_eq!(to_string_pretty(&one_entry(text("end"))).unwrap(), "{\n  [\"end\"] = 1\n}");
}

#[test]
fn character_key_follows_the_string_rule() {
    assert_eq!(to_string(&one_entry(Value::Char('x'))).unwrap(), "{ x = 1 }");
    assert_eq!(to_string(&one_entry(Value::Char(' '))).unwrap(), "{ [\" \"] = 1 }");
    assert_eq!(to_string(&one_entry(Value::Char('7'))).unwrap(), "{ [\"7\"] = 1 }");
}

#[test]
fn unit_variant_key_follows_the_string_rule() {
    let red = Value::UnitVariant("Red".to_string());
    assert_eq!(to_string(&one_entry(red)).unwrap(), "{ Red = 1 }");
    let odd = Value::UnitVariant("not".to_string());
    assert_eq!(to_string(&one_entry(odd)).unwrap(), "{ [\"not\"] = 1 }");
}

#[test]
fn present_string_key_follows_the_string_rule() {
    let key = Value::Present(Box::new(Value::Present(Box::new(text("k")))));
    assert_eq!(to_string(&one_entry(key)).unwrap(), "{ k = 1 }");
}

#[test]
fn boolean_key_is_bracketed() {
    assert_eq!(to_string(&one_entry(Value::Boolean(true))).unwrap(), "{ [true] = 1 }");
    assert_eq!(to_string_pretty(&one_entry(Value::Boolean(false))).unwrap(), "{\n  [false] = 1\n}");
}

#[test]
fn integer_key_is_bracketed() {
    assert_eq!(to_string(&one_entry(integer(-7))).unwrap(), "{ [-7] = 1 }");
    assert_eq!(to_string_pretty(&one_entry(integer(42))).unwrap(), "{\n  [42] = 1\n}");
}

#[test]
fn float_key_is_bracketed() {
    let key = Value::Float(1.5f64.to_string());
    assert_eq!(to_string(&one_entry(key)).unwrap(), "{ [1.5] = 1 }");
}

#[test]
fn nil_key_is_bracketed() {
    assert_eq!(to_string(&one_entry(Value::Nil)).unwrap(), "{ [nil] = 1 }");
    assert_eq!(to_string(&one_entry(Value::Absent)).unwrap(), "{ [nil] = 1 }");
    let present_unit = Value::Present(Box::new(Value::Nil));
    assert_eq!(to_string_pretty(&one_entry(present_unit)).unwrap(), "{\n  [nil] = 1\n}");
}

#[test]
fn table_key_is_bracketed_and_on_one_line() {
    let key = Value::Sequence(vec![integer(1), integer(2)]);
    assert_eq!(to_string(&one_entry(key)).unwrap(), "{ [{ 1, 2 }] = 1 }");
    let key = Value::Sequence(vec![integer(1), integer(2)]);
    assert_eq!(to_string_pretty(&one_entry(key)).unwrap(), "{\n  [{ 1, 2 }] = 1\n}");
}

#[test]
fn struct_key_holds_bare_names_and_stays_on_one_line() {
    let key = Value::Struct(vec![("foo".to_string(), integer(45))]);
    let map = Value::Mapping(vec![(key, text("blah"))]);
    assert_eq!(to_string_pretty(&map).unwrap(), "{\n  [{ foo = 45 }] = \"blah\"\n}");
}

#[test]
fn string_inside_a_table_key_is_quoted() {
    let key = Value::Sequence(vec![text("a")]);
    assert_eq!(to_string(&one_entry(key)).unwrap(), "{ [{ \"a\" }] = 1 }");
}

#[test]
fn value_after_a_key_is_written_in_the_maps_layout() {
    let map = Value::Mapping(vec![(
        Value::Sequence(vec![integer(0)]),
        Value::Sequence(vec![integer(1)]),
    )]);
    assert_eq!(to_string_pretty(&map).unwrap(), "{\n  [{ 0 }] = {\n    1\n  }\n}");
}

#[test]
fn string_value_of_an_entry_is_quoted_even_if_identifier() {
    let map = Value::Mapping(vec![(text("k"), text("v"))]);
    assert_eq!(to_string(&map).unwrap(), "{ k = \"v\" }");
}

#[test]
fn serialize_key_then_value_writes_one_entry() {
    let mut s = Serializer::new("\t".to_string(), true);
    s.serialize_map().unwrap();
    s.serialize_key(&text("a")).unwrap();
    s.serialize_value(&integer(1)).unwrap();
    s.serialize_key(&integer(2)).unwrap();
    s.serialize_value(&text("b")).unwrap();
    s.end().unwrap();
    assert_eq!(s.output(), "{\n\ta = 1,\n\t[2] = \"b\"\n}");
    assert!(s.enable_indent());
}

#[test]
fn struct_field_names_follow_the_key_rule() {
    let v = Value::Struct(vec![
        ("x".to_string(), integer(1)),
        ("end".to_string(), integer(2)),
        ("two words".to_string(), integer(3)),
    ]);
    assert_eq!(to_string(&v).unwrap(), "{ x = 1, [\"end\"] = 2, [\"two words\"] = 3 }");
}

//! The closed set of value kinds that the encoder accepts.

use vstd::prelude::*;
use crate::parser::Int;

verus! {

/// A structured value, as one of the kinds that the table-literal format
/// can express.
#[derive(Debug, PartialEq, Eq)]
pub enum Value {
    /// The unit value, or a struct without fields.
    Nil,
    Boolean(bool),
    /// An integer of any width, signed or unsigned.
    Integer(Int),
    /// A floating-point number, held as its shortest decimal text that
    /// reads back to the same number.
    Float(String),
    Char(char),
    String(String),
    Bytes(Vec<u8>),
    /// An optional value that is absent.
    Absent,
    /// An optional value that is present.
    Present(Box<Value>),
    /// A sequence or tuple.
    Sequence(Vec<Value>),
    /// A map, as its entries in order. Keys may be of any kind.
    Mapping(Vec<(Value, Value)>),
    /// A struct, as its named fields in order.
    Struct(Vec<(String, Value)>),
    /// A variant that is only a tag.
    UnitVariant(String),
    /// A variant that wraps one value.
    NewtypeVariant(String, Box<Value>),
    /// A variant that wraps a tuple.
    TupleVariant(String, Vec<Value>),
    /// A variant that wraps named fields.
    StructVariant(String, Vec<(String, Value)>),
}

/// The characters that the decimal text of a floating-point number is made
/// of: digits, a point, a sign, and the letters of `inf`, `NaN` and of an
/// exponent.
pub open spec fn is_float_char(c: char) -> bool {
    ('0' <= c && c <= '9') || c == '.' || c == '-' || c == '+' || ('a' <= c && c <= 'z') || ('A'
        <= c && c <= 'Z')
}

/// Whether `t` can be the decimal text of a floating-point number.
pub open spec fn is_float_text(t: Seq<char>) -> bool {
    &&& t.len() > 0
    &&& forall|i: int| 0 <= i < t.len() ==> is_float_char(#[trigger] t[i])
}

/// Whether every floating-point number in `v` is held as a decimal text.
pub open spec fn well_formed(v: Value) -> bool
    decreases v,
{
    match v {
        Value::Float(t) => is_float_text(t@),
        Value::Present(inner) => well_formed(*inner),
        Value::Sequence(items) => forall|i: int|
            0 <= i < items@.len() ==> well_formed(#[trigger] items@[i]),
        Value::Mapping(entries) => forall|i: int|
            0 <= i < entries@.len() ==> well_formed((#[trigger] entries@[i]).0) && well_formed(
                entries@[i].1,
            ),
        Value::Struct(fields) => forall|i: int|
            0 <= i < fields@.len() ==> well_formed((#[trigger] fields@[i]).1),
        Value::NewtypeVariant(_, payload) => well_formed(*payload),
        Value::TupleVariant(_, items) => forall|i: int|
            0 <= i < items@.len() ==> well_formed(#[trigger] items@[i]),
        Value::StructVariant(_, fields) => forall|i: int|
            0 <= i < fields@.len() ==> well_formed((#[trigger] fields@[i]).1),
        _ => true,
    }
}

} // verus!

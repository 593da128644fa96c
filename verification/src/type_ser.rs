//! The type classifier: which kind of Lua value a structured value becomes.

use vstd::prelude::*;
use crate::error::Result;
use crate::value::Value;

verus! {

/// The kinds of Lua value.
#[derive(Debug, Eq, PartialEq, Ord, PartialOrd, Hash, Clone, Copy, Structural)]
pub enum Type {
    Int,
    Float,
    Nil,
    Table,
    String,
    Bool,
}

/// The kind that a value is encoded as. Every compound value is a table, an
/// absent optional and the unit are nil, and a present optional is what it
/// holds.
pub open spec fn kind_of(v: Value) -> Type
    decreases v,
{
    match v {
        Value::Nil => Type::Nil,
        Value::Boolean(_) => Type::Bool,
        Value::Integer(_) => Type::Int,
        Value::Float(_) => Type::Float,
        Value::Char(_) => Type::String,
        Value::String(_) => Type::String,
        Value::Bytes(_) => Type::Table,
        Value::Absent => Type::Nil,
        Value::Present(inner) => kind_of(*inner),
        Value::Sequence(_) => Type::Table,
        Value::Mapping(_) => Type::Table,
        Value::Struct(_) => Type::Table,
        Value::UnitVariant(_) => Type::String,
        Value::NewtypeVariant(_, _) => Type::Table,
        Value::TupleVariant(_, _) => Type::Table,
        Value::StructVariant(_, _) => Type::Table,
    }
}

/// What the classifier's slot holds after `typ` was written to it: a write
/// replaces what was there.
pub open spec fn written(slot: Type, typ: Type) -> Type {
    typ
}

/// What the classifier's slot holds after `v` was presented to it with
/// `slot` in it: the walk of the classifier, step by step.
pub open spec fn classified(slot: Type, v: Value) -> Type
    decreases v,
{
    match v {
        Value::Nil => written(slot, Type::Nil),
        Value::Boolean(_) => written(slot, Type::Bool),
        Value::Integer(_) => written(slot, Type::Int),
        Value::Float(_) => written(slot, Type::Float),
        Value::Char(_) => written(slot, Type::String),
        Value::String(_) => written(slot, Type::String),
        Value::Bytes(_) => written(slot, Type::Table),
        Value::Absent => written(slot, Type::Nil),
        Value::Present(inner) => classified(slot, *inner),
        Value::Sequence(_) => written(slot, Type::Table),
        Value::Mapping(_) => written(slot, Type::Table),
        Value::Struct(_) => written(slot, Type::Table),
        Value::UnitVariant(_) => written(slot, Type::String),
        Value::NewtypeVariant(_, _) => written(slot, Type::Table),
        Value::TupleVariant(_, _) => written(slot, Type::Table),
        Value::StructVariant(_, _) => written(slot, Type::Table),
    }
}

/// Classifies a value without writing anything.
pub fn compute_type(value: &Value) -> (r: Result<Type>)
    ensures
        r == Ok::<Type, crate::error::Error>(kind_of(*value)),
{
    let mut serializer = Serializer { output: Type::Nil };
    value.classify(&mut serializer)?;
    proof {
        lemma_classified_is_kind(Type::Nil, *value);
    }
    Ok(serializer.output)
}

/// The classifier: a serializer whose only output is the kind it was last
/// shown.
pub struct Serializer {
    pub output: Type,
}

impl Serializer {
    pub fn write(&mut self, typ: Type) -> (r: Result<()>)
        ensures
            r is Ok,
            final(self).output == written(old(self).output, typ),
    {
        self.output = typ;
        Ok(())
    }

    pub fn serialize_bool(&mut self, v: bool) -> (r: Result<()>)
        ensures
            r is Ok,
            final(self).output == Type::Bool,
    {
        self.write(Type::Bool)?;
        Ok(())
    }

    /// An integer of any width.
    pub fn serialize_int(&mut self) -> (r: Result<()>)
        ensures
            r is Ok,
            final(self).output == Type::Int,
    {
        self.write(Type::Int)?;
        Ok(())
    }

    pub fn serialize_float(&mut self) -> (r: Result<()>)
        ensures
            r is Ok,
            final(self).output == Type::Float,
    {
        self.write(Type::Float)?;
        Ok(())
    }

    pub fn serialize_char(&mut self, v: char) -> (r: Result<()>)
        ensures
            r is Ok,
            final(self).output == Type::String,
    {
        self.write(Type::String)?;
        Ok(())
    }

    pub fn serialize_str(&mut self, v: &str) -> (r: Result<()>)
        ensures
            r is Ok,
            final(self).output == Type::String,
    {
        self.write(Type::String)?;
        Ok(())
    }

    pub fn serialize_bytes(&mut self, v: &[u8]) -> (r: Result<()>)
        ensures
            r is Ok,
            final(self).output == Type::Table,
    {
        self.write(Type::Table)?;
        Ok(())
    }

    pub fn serialize_none(&mut self) -> (r: Result<()>)
        ensures
            r is Ok,
            final(self).output == Type::Nil,
    {
        self.serialize_unit()
    }

    pub fn serialize_some(&mut self, value: &Value) -> (r: Result<()>)
        ensures
            r is Ok,
            final(self).output == classified(old(self).output, *value),
        decreases value, 1nat,
    {
        value.classify(self)
    }

    pub fn serialize_unit(&mut self) -> (r: Result<()>)
        ensures
            r is Ok,
            final(self).output == Type::Nil,
    {
        self.write(Type::Nil)?;
        Ok(())
    }

    pub fn serialize_unit_variant(&mut self, variant: &str) -> (r: Result<()>)
        ensures
            r is Ok,
            final(self).output == Type::String,
    {
        self.serialize_str(variant)
    }

    /// A sequence, a tuple, a map, a struct, or a variant with a payload:
    /// what is inside is not looked at.
    pub fn serialize_table(&mut self) -> (r: Result<()>)
        ensures
            r is Ok,
            final(self).output == Type::Table,
    {
        self.write(Type::Table)?;
        Ok(())
    }
}

impl Value {
    /// Presents this value to the classifier, which records its kind.
    pub fn classify(&self, serializer: &mut Serializer) -> (r: Result<()>)
        ensures
            r is Ok,
            final(serializer).output == classified(old(serializer).output, *self),
        decreases self, 0nat,
    {
        match self {
            Value::Nil => serializer.serialize_unit(),
            Value::Boolean(b) => serializer.serialize_bool(*b),
            Value::Integer(_) => serializer.serialize_int(),
            Value::Float(_) => serializer.serialize_float(),
            Value::Char(c) => serializer.serialize_char(*c),
            Value::String(s) => serializer.serialize_str(s.as_str()),
            Value::Bytes(b) => serializer.serialize_bytes(b.as_slice()),
            Value::Absent => serializer.serialize_none(),
            Value::Present(inner) => serializer.serialize_some(inner),
            Value::Sequence(_) => serializer.serialize_table(),
            Value::Mapping(_) => serializer.serialize_table(),
            Value::Struct(_) => serializer.serialize_table(),
            Value::UnitVariant(tag) => serializer.serialize_unit_variant(tag.as_str()),
            Value::NewtypeVariant(_, _) => serializer.serialize_table(),
            Value::TupleVariant(_, _) => serializer.serialize_table(),
            Value::StructVariant(_, _) => serializer.serialize_table(),
        }
    }
}

/// Whatever the classifier's slot held before, after a value was presented
/// it holds the kind of that value.
pub proof fn lemma_classified_is_kind(slot: Type, v: Value)
    ensures
        classified(slot, v) == kind_of(v),
    decreases v,
{
    match v {
        Value::Present(inner) => {
            lemma_classified_is_kind(slot, *inner);
        },
        _ => {},
    }
}

/// Classification has no effect on what a later classification finds:
/// presenting a value again, to a classifier in any state, gives the same
/// kind as the first time.
pub proof fn lemma_classification_repeats(first: Type, later: Type, v: Value)
    ensures
        classified(later, v) == classified(first, v),
        classified(classified(first, v), v) == classified(first, v),
{
    lemma_classified_is_kind(first, v);
    lemma_classified_is_kind(later, v);
    lemma_classified_is_kind(classified(first, v), v);
}

} // verus!

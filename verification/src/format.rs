//! The table-literal format, as spec functions from values to text.

use vstd::prelude::*;
use crate::text::{decimal, integer_text};
use crate::type_ser::{kind_of, Type};
use crate::value::Value;

verus! {

/// How text is laid out at one point of the traversal.
pub ghost struct Style {
    /// The text that one level of nesting is indented by.
    pub unit: Seq<char>,
    /// Multi-line with indentation, or on one line.
    pub pretty: bool,
    /// Whether a map key is being written.
    pub key_mode: bool,
}

impl Style {
    /// The same style on one line.
    pub open spec fn compact(self) -> Style {
        Style { pretty: false, ..self }
    }

    /// The same style for a map key that is a string.
    pub open spec fn for_key(self) -> Style {
        Style { pretty: false, key_mode: true, ..self }
    }
}

/// A letter, a digit or the underscore.
pub open spec fn is_identifier_char_spec(c: char) -> bool {
    ('a' <= c && c <= 'z') || ('A' <= c && c <= 'Z') || ('0' <= c && c <= '9') || c == '_'
}

/// One of the words that Lua reserves.
pub open spec fn is_reserved_word(s: Seq<char>) -> bool {
    s == "and"@ || s == "break"@ || s == "do"@ || s == "else"@ || s == "elseif"@ || s == "end"@
        || s == "false"@ || s == "for"@ || s == "function"@ || s == "goto"@ || s == "if"@ || s
        == "in"@ || s == "local"@ || s == "nil"@ || s == "not"@ || s == "or"@ || s == "repeat"@
        || s == "return"@ || s == "then"@ || s == "true"@ || s == "until"@ || s == "while"@
}

/// The identifier rule: not empty, only letters, digits and underscores, no
/// digit in front, and not a reserved word.
pub open spec fn is_identifier_spec(s: Seq<char>) -> bool {
    &&& s.len() > 0
    &&& forall|i: int| 0 <= i < s.len() ==> is_identifier_char_spec(#[trigger] s[i])
    &&& !('0' <= s[0] && s[0] <= '9')
    &&& !is_reserved_word(s)
}

/// What one character becomes inside a quoted string. The form feed and
/// vertical tab escapes are given to the control characters 0x12 and 0x11.
pub open spec fn escape_char(c: char) -> Seq<char> {
    if c == '"' {
        "\\\""@
    } else if c == '\'' {
        "\\'"@
    } else if c == '\x07' {
        "\\a"@
    } else if c == '\x08' {
        "\\b"@
    } else if c == '\x12' {
        "\\f"@
    } else if c == '\n' {
        "\\n"@
    } else if c == '\r' {
        "\\r"@
    } else if c == '\t' {
        "\\t"@
    } else if c == '\x11' {
        "\\v"@
    } else if c == '\\' {
        "\\\\"@
    } else if c == '[' {
        "\\["@
    } else if c == ']' {
        "\\]"@
    } else {
        seq![c]
    }
}

/// The characters of `s`, each escaped, in order.
pub open spec fn escaped(s: Seq<char>) -> Seq<char>
    decreases s.len(),
{
    if s.len() == 0 {
        Seq::empty()
    } else {
        escaped(s.drop_last()) + escape_char(s.last())
    }
}

/// A string between double quotes, escaped.
pub open spec fn quoted(s: Seq<char>) -> Seq<char> {
    "\""@ + escaped(s) + "\""@
}

/// A string as it is written: in key mode bare if it is an identifier and
/// else quoted between brackets, otherwise quoted.
pub open spec fn string_text(s: Seq<char>, key_mode: bool) -> Seq<char> {
    if key_mode && is_identifier_spec(s) {
        s
    } else if key_mode {
        "["@ + quoted(s) + "]"@
    } else {
        quoted(s)
    }
}

/// The name of a field or the tag of a variant, in key position: as a
/// string in key mode, so bare if it is an identifier and else quoted
/// between brackets.
pub open spec fn name_key(name: Seq<char>) -> Seq<char> {
    string_text(name, true)
}

/// `depth` copies of the indent unit.
pub open spec fn indentation(unit: Seq<char>, depth: nat) -> Seq<char>
    decreases depth,
{
    if depth == 0 {
        Seq::empty()
    } else {
        indentation(unit, (depth - 1) as nat) + unit
    }
}

/// The indent in front of a line at `depth`: nothing on one line.
pub open spec fn indent_text(style: Style, depth: nat) -> Seq<char> {
    if style.pretty {
        indentation(style.unit, depth)
    } else {
        Seq::empty()
    }
}

/// What stands between a table's brace and its first or last element.
pub open spec fn line_break(pretty: bool) -> Seq<char> {
    if pretty {
        "\n"@
    } else {
        " "@
    }
}

/// What stands between two elements of a table.
pub open spec fn separator(pretty: bool) -> Seq<char> {
    if pretty {
        ",\n"@
    } else {
        ", "@
    }
}

/// What is written in front of an element of a table open at `depth`.
pub open spec fn element_lead(first: bool, style: Style, depth: nat) -> Seq<char> {
    (if first {
        line_break(style.pretty)
    } else {
        separator(style.pretty)
    }) + indent_text(style, depth)
}

/// What closes a table whose brace stands at `depth`.
pub open spec fn table_close(style: Style, depth: nat) -> Seq<char> {
    line_break(style.pretty) + indent_text(style, depth) + "}"@
}

/// One element of a table open at `depth`, given the element's own text.
pub open spec fn element_line(first: bool, item: Seq<char>, style: Style, depth: nat) -> Seq<
    char,
> {
    element_lead(first, style, depth) + item
}

/// One entry of a map open at `depth`, given the texts of key and value.
pub open spec fn entry_line(
    first: bool,
    key: Seq<char>,
    value: Seq<char>,
    style: Style,
    depth: nat,
) -> Seq<char> {
    element_lead(first, style, depth) + key + " = "@ + value
}

/// One field of a struct open at `depth`, given the text of its value.
pub open spec fn field_line(
    first: bool,
    name: Seq<char>,
    value: Seq<char>,
    style: Style,
    depth: nat,
) -> Seq<char> {
    element_lead(first, style, depth) + name_key(name) + " = "@ + value
}

/// A table that was opened at `depth`, given the text of what it holds.
pub open spec fn table_text(body: Seq<char>, style: Style, depth: nat) -> Seq<char> {
    "{"@ + body + table_close(style, depth)
}

/// A variant with a payload, given the payload's text: `{ TAG = payload }`.
pub open spec fn variant_text(tag: Seq<char>, payload: Seq<char>) -> Seq<char> {
    "{ "@ + name_key(tag) + " = "@ + payload + " }"@
}

/// The first `n` bytes as elements of a table on one line.
pub open spec fn bytes_text(bytes: Seq<u8>, n: nat) -> Seq<char>
    decreases n,
{
    if n == 0 || n > bytes.len() {
        Seq::empty()
    } else {
        bytes_text(bytes, (n - 1) as nat) + (if n == 1 {
            " "@
        } else {
            ", "@
        }) + decimal(bytes[n - 1] as nat)
    }
}

/// The text of a value that is written at nesting `depth` in `style`.
pub open spec fn encoded(v: Value, style: Style, depth: nat) -> Seq<char>
    decreases v, 0nat,
{
    match v {
        Value::Nil => "nil"@,
        Value::Boolean(b) => if b {
            "true"@
        } else {
            "false"@
        },
        Value::Integer(i) => integer_text(i@),
        Value::Float(t) => t@,
        Value::Char(c) => string_text(seq![c], style.key_mode),
        Value::String(s) => string_text(s@, style.key_mode),
        Value::Bytes(b) => "{"@ + bytes_text(b@, b@.len()) + " }"@,
        Value::Absent => "nil"@,
        Value::Present(inner) => encoded(*inner, style, depth),
        Value::Sequence(items) => table_text(
            elements_text(items@, items@.len(), style, depth + 1),
            style,
            depth,
        ),
        Value::Mapping(entries) => table_text(
            entries_text(entries@, entries@.len(), style, depth + 1),
            style,
            depth,
        ),
        Value::Struct(fields) => table_text(
            fields_text(fields@, fields@.len(), style, depth + 1),
            style,
            depth,
        ),
        Value::UnitVariant(tag) => string_text(tag@, style.key_mode),
        Value::NewtypeVariant(tag, payload) => variant_text(tag@, encoded(*payload, style, depth)),
        Value::TupleVariant(tag, items) => variant_text(
            tag@,
            table_text(elements_text(items@, items@.len(), style, depth + 1), style, depth),
        ),
        Value::StructVariant(tag, fields) => variant_text(
            tag@,
            table_text(fields_text(fields@, fields@.len(), style, depth + 1), style, depth),
        ),
    }
}

/// What a value of string kind holds as text: the string, the character,
/// or the tag of a unit variant, also inside a present optional.
pub open spec fn string_of(v: Value) -> Seq<char>
    decreases v,
{
    match v {
        Value::Char(c) => seq![c],
        Value::String(s) => s@,
        Value::UnitVariant(tag) => tag@,
        Value::Present(inner) => string_of(*inner),
        _ => Seq::empty(),
    }
}

/// A map key at `depth`: a key of string kind in key mode, any other
/// between brackets; both on one line.
pub open spec fn key_text(key: Value, style: Style, depth: nat) -> Seq<char>
    decreases key, 1nat,
{
    if kind_of(key) == Type::String {
        encoded(key, style.for_key(), depth)
    } else {
        "["@ + encoded(key, style.compact(), depth) + "]"@
    }
}

/// The first `n` elements of a table whose elements stand at `depth`.
pub open spec fn elements_text(items: Seq<Value>, n: nat, style: Style, depth: nat) -> Seq<char>
    decreases items, n,
{
    if n == 0 || n > items.len() {
        Seq::empty()
    } else {
        elements_text(items, (n - 1) as nat, style, depth) + element_line(
            n == 1,
            encoded(items[n - 1], style, depth),
            style,
            depth,
        )
    }
}

/// The first `n` entries of a map whose entries stand at `depth`.
pub open spec fn entries_text(
    entries: Seq<(Value, Value)>,
    n: nat,
    style: Style,
    depth: nat,
) -> Seq<char>
    decreases entries, n,
{
    if n == 0 || n > entries.len() {
        Seq::empty()
    } else {
        entries_text(entries, (n - 1) as nat, style, depth) + entry_line(
            n == 1,
            key_text(entries[n - 1].0, style, depth),
            encoded(entries[n - 1].1, style, depth),
            style,
            depth,
        )
    }
}

/// The first `n` fields of a struct whose fields stand at `depth`.
pub open spec fn fields_text(
    fields: Seq<(String, Value)>,
    n: nat,
    style: Style,
    depth: nat,
) -> Seq<char>
    decreases fields, n,
{
    if n == 0 || n > fields.len() {
        Seq::empty()
    } else {
        fields_text(fields, (n - 1) as nat, style, depth) + field_line(
            n == 1,
            fields[n - 1].0@,
            encoded(fields[n - 1].1, style, depth),
            style,
            depth,
        )
    }
}

} // verus!

//! What holds of every encoding, proved from the format's definition.

use vstd::prelude::*;
use vstd::utf8::*;
use crate::format::{
    bytes_text, element_lead, element_line, elements_text, encoded, entries_text, entry_line,
    escape_char, escaped, field_line, fields_text, indentation, is_identifier_spec,
    key_text, name_key, quoted, string_of, string_text, table_close, table_text, variant_text,
    Style,
};
use crate::parser::Int;
use crate::text::{decimal, integer_text};
use crate::type_ser::{kind_of, Type};
use crate::value::{well_formed, Value};

verus! {

/// Whether a text holds no newline.
pub open spec fn single_line(s: Seq<char>) -> bool {
    forall|i: int| 0 <= i < s.len() ==> s[i] != '\n'
}

/// Texts joined are on one line exactly if each of them is.
pub proof fn lemma_single_line_joined(a: Seq<char>, b: Seq<char>)
    ensures
        single_line(a + b) <==> single_line(a) && single_line(b),
{
    if single_line(a + b) {
        assert forall|i: int| 0 <= i < a.len() implies a[i] != '\n' by {
            assert((a + b)[i] == a[i]);
        }
        assert forall|i: int| 0 <= i < b.len() implies b[i] != '\n' by {
            assert((a + b)[i + a.len()] == b[i]);
        }
    }
}

/// The fixed texts of the one-line layout hold no newline.
proof fn lemma_fixed_texts_single_line()
    ensures
        single_line("nil"@),
        single_line("true"@),
        single_line("false"@),
        single_line("{"@),
        single_line("}"@),
        single_line(" }"@),
        single_line("{ "@),
        single_line(" = "@),
        single_line("["@),
        single_line("]"@),
        single_line("\""@),
        single_line(" "@),
        single_line(", "@),
{
    reveal_strlit("nil");
    reveal_strlit("true");
    reveal_strlit("false");
    reveal_strlit("{");
    reveal_strlit("}");
    reveal_strlit(" }");
    reveal_strlit("{ ");
    reveal_strlit(" = ");
    reveal_strlit("[");
    reveal_strlit("]");
    reveal_strlit("\"");
    reveal_strlit(" ");
    reveal_strlit(", ");
}

proof fn lemma_decimal_single_line(n: nat)
    ensures
        single_line(decimal(n)),
    decreases n,
{
    if n >= 10 {
        lemma_decimal_single_line(n / 10);
    }
}

proof fn lemma_integer_single_line(n: int)
    ensures
        single_line(integer_text(n)),
{
    if n < 0 {
        lemma_decimal_single_line((-n) as nat);
        lemma_single_line_joined(seq!['-'], decimal((-n) as nat));
    } else {
        lemma_decimal_single_line(n as nat);
    }
}

proof fn lemma_escape_single_line(c: char)
    ensures
        single_line(escape_char(c)),
        escape_char(c).len() >= 1,
{
    reveal_strlit("\\\"");
    reveal_strlit("\\'");
    reveal_strlit("\\a");
    reveal_strlit("\\b");
    reveal_strlit("\\f");
    reveal_strlit("\\n");
    reveal_strlit("\\r");
    reveal_strlit("\\t");
    reveal_strlit("\\v");
    reveal_strlit("\\\\");
    reveal_strlit("\\[");
    reveal_strlit("\\]");
}

/// An escaped text holds no newline, and is no shorter than the text.
pub proof fn lemma_escaped_single_line(s: Seq<char>)
    ensures
        single_line(escaped(s)),
        escaped(s).len() >= s.len(),
    decreases s.len(),
{
    if s.len() > 0 {
        lemma_escaped_single_line(s.drop_last());
        lemma_escape_single_line(s.last());
        lemma_single_line_joined(escaped(s.drop_last()), escape_char(s.last()));
    }
}

proof fn lemma_quoted_single_line(s: Seq<char>)
    ensures
        single_line(quoted(s)),
        quoted(s).len() >= s.len() + 2,
{
    lemma_fixed_texts_single_line();
    lemma_escaped_single_line(s);
    lemma_single_line_joined("\""@, escaped(s));
    lemma_single_line_joined("\""@ + escaped(s), "\""@);
    reveal_strlit("\"");
}

proof fn lemma_string_text_single_line(s: Seq<char>, key_mode: bool)
    ensures
        single_line(string_text(s, key_mode)),
{
    lemma_fixed_texts_single_line();
    lemma_quoted_single_line(s);
    lemma_single_line_joined("["@, quoted(s));
    lemma_single_line_joined("["@ + quoted(s), "]"@);
}

proof fn lemma_name_key_single_line(name: Seq<char>)
    ensures
        single_line(name_key(name)),
{
    lemma_string_text_single_line(name, true);
}

proof fn lemma_bytes_single_line(bytes: Seq<u8>, n: nat)
    ensures
        single_line(bytes_text(bytes, n)),
    decreases n,
{
    if n == 0 || n > bytes.len() {
    } else {
        lemma_fixed_texts_single_line();
        lemma_bytes_single_line(bytes, (n - 1) as nat);
        lemma_decimal_single_line(bytes[n - 1] as nat);
        let lead = if n == 1 {
            " "@
        } else {
            ", "@
        };
        lemma_single_line_joined(bytes_text(bytes, (n - 1) as nat), lead);
        lemma_single_line_joined(
            bytes_text(bytes, (n - 1) as nat) + lead,
            decimal(bytes[n - 1] as nat),
        );
    }
}

proof fn lemma_lead_and_close_single_line(first: bool, style: Style, depth: nat)
    requires
        !style.pretty,
    ensures
        single_line(element_lead(first, style, depth)),
        single_line(table_close(style, depth)),
{
    lemma_fixed_texts_single_line();
    assert(element_lead(first, style, depth) =~= if first {
        " "@
    } else {
        ", "@
    });
    assert(table_close(style, depth) =~= " "@ + "}"@);
    lemma_single_line_joined(" "@, "}"@);
}

proof fn lemma_table_single_line(body: Seq<char>, style: Style, depth: nat)
    requires
        !style.pretty,
        single_line(body),
    ensures
        single_line(table_text(body, style, depth)),
{
    lemma_fixed_texts_single_line();
    lemma_lead_and_close_single_line(true, style, depth);
    lemma_single_line_joined("{"@, body);
    lemma_single_line_joined("{"@ + body, table_close(style, depth));
}

proof fn lemma_variant_single_line(tag: Seq<char>, payload: Seq<char>)
    requires
        single_line(payload),
    ensures
        single_line(variant_text(tag, payload)),
{
    lemma_fixed_texts_single_line();
    lemma_name_key_single_line(tag);
    let a = "{ "@ + name_key(tag);
    lemma_single_line_joined("{ "@, name_key(tag));
    lemma_single_line_joined(a, " = "@);
    lemma_single_line_joined(a + " = "@, payload);
    lemma_single_line_joined(a + " = "@ + payload, " }"@);
}

/// On one line, the text of a value holds no newline: what a string holds
/// is escaped, and neither a table nor an indent brings one.
pub proof fn lemma_compact_is_single_line(v: Value, style: Style, depth: nat)
    requires
        !style.pretty,
        well_formed(v),
    ensures
        single_line(encoded(v, style, depth)),
    decreases v, 0nat,
{
    lemma_fixed_texts_single_line();
    match v {
        Value::Nil => {},
        Value::Boolean(_) => {},
        Value::Integer(i) => {
            lemma_integer_single_line(i@);
        },
        Value::Float(t) => {},
        Value::Char(c) => {
            lemma_string_text_single_line(seq![c], style.key_mode);
        },
        Value::String(s) => {
            lemma_string_text_single_line(s@, style.key_mode);
        },
        Value::Bytes(b) => {
            lemma_bytes_single_line(b@, b@.len());
            lemma_single_line_joined("{"@, bytes_text(b@, b@.len()));
            lemma_single_line_joined("{"@ + bytes_text(b@, b@.len()), " }"@);
        },
        Value::Absent => {},
        Value::Present(inner) => {
            lemma_compact_is_single_line(*inner, style, depth);
        },
        Value::Sequence(items) => {
            lemma_elements_single_line(items@, items@.len(), style, depth + 1);
            lemma_table_single_line(
                elements_text(items@, items@.len(), style, depth + 1),
                style,
                depth,
            );
        },
        Value::Mapping(entries) => {
            lemma_entries_single_line(entries@, entries@.len(), style, depth + 1);
            lemma_table_single_line(
                entries_text(entries@, entries@.len(), style, depth + 1),
                style,
                depth,
            );
        },
        Value::Struct(fields) => {
            lemma_fields_single_line(fields@, fields@.len(), style, depth + 1);
            lemma_table_single_line(
                fields_text(fields@, fields@.len(), style, depth + 1),
                style,
                depth,
            );
        },
        Value::UnitVariant(tag) => {
            lemma_string_text_single_line(tag@, style.key_mode);
        },
        Value::NewtypeVariant(tag, payload) => {
            lemma_compact_is_single_line(*payload, style, depth);
            lemma_variant_single_line(tag@, encoded(*payload, style, depth));
        },
        Value::TupleVariant(tag, items) => {
            lemma_elements_single_line(items@, items@.len(), style, depth + 1);
            let table = table_text(
                elements_text(items@, items@.len(), style, depth + 1),
                style,
                depth,
            );
            lemma_table_single_line(
                elements_text(items@, items@.len(), style, depth + 1),
                style,
                depth,
            );
            lemma_variant_single_line(tag@, table);
        },
        Value::StructVariant(tag, fields) => {
            lemma_fields_single_line(fields@, fields@.len(), style, depth + 1);
            let table = table_text(
                fields_text(fields@, fields@.len(), style, depth + 1),
                style,
                depth,
            );
            lemma_table_single_line(
                fields_text(fields@, fields@.len(), style, depth + 1),
                style,
                depth,
            );
            lemma_variant_single_line(tag@, table);
        },
    }
}

proof fn lemma_key_single_line(key: Value, style: Style, depth: nat)
    requires
        well_formed(key),
    ensures
        single_line(key_text(key, style, depth)),
    decreases key, 1nat,
{
    lemma_fixed_texts_single_line();
    if kind_of(key) == Type::String {
        lemma_compact_is_single_line(key, style.for_key(), depth);
    } else {
        lemma_compact_is_single_line(key, style.compact(), depth);
        lemma_single_line_joined("["@, encoded(key, style.compact(), depth));
        lemma_single_line_joined("["@ + encoded(key, style.compact(), depth), "]"@);
    }
}

proof fn lemma_elements_single_line(items: Seq<Value>, n: nat, style: Style, depth: nat)
    requires
        !style.pretty,
        forall|i: int| 0 <= i < items.len() ==> well_formed(#[trigger] items[i]),
    ensures
        single_line(elements_text(items, n, style, depth)),
    decreases items, n,
{
    if n == 0 || n > items.len() {
    } else {
        lemma_elements_single_line(items, (n - 1) as nat, style, depth);
        lemma_compact_is_single_line(items[n - 1], style, depth);
        lemma_lead_and_close_single_line(n == 1, style, depth);
        let item = encoded(items[n - 1], style, depth);
        lemma_single_line_joined(element_lead(n == 1, style, depth), item);
        lemma_single_line_joined(
            elements_text(items, (n - 1) as nat, style, depth),
            element_line(n == 1, item, style, depth),
        );
    }
}

proof fn lemma_entries_single_line(
    entries: Seq<(Value, Value)>,
    n: nat,
    style: Style,
    depth: nat,
)
    requires
        !style.pretty,
        forall|i: int|
            0 <= i < entries.len() ==> well_formed((#[trigger] entries[i]).0) && well_formed(
                entries[i].1,
            ),
    ensures
        single_line(entries_text(entries, n, style, depth)),
    decreases entries, n,
{
    if n == 0 || n > entries.len() {
    } else {
        lemma_fixed_texts_single_line();
        lemma_entries_single_line(entries, (n - 1) as nat, style, depth);
        assert(well_formed(entries[n - 1].0) && well_formed(entries[n - 1].1));
        lemma_key_single_line(entries[n - 1].0, style, depth);
        lemma_compact_is_single_line(entries[n - 1].1, style, depth);
        lemma_lead_and_close_single_line(n == 1, style, depth);
        let lead = element_lead(n == 1, style, depth);
        let key = key_text(entries[n - 1].0, style, depth);
        let value = encoded(entries[n - 1].1, style, depth);
        lemma_single_line_joined(lead, key);
        lemma_single_line_joined(lead + key, " = "@);
        lemma_single_line_joined(lead + key + " = "@, value);
        lemma_single_line_joined(
            entries_text(entries, (n - 1) as nat, style, depth),
            entry_line(n == 1, key, value, style, depth),
        );
    }
}

proof fn lemma_fields_single_line(
    fields: Seq<(String, Value)>,
    n: nat,
    style: Style,
    depth: nat,
)
    requires
        !style.pretty,
        forall|i: int| 0 <= i < fields.len() ==> well_formed((#[trigger] fields[i]).1),
    ensures
        single_line(fields_text(fields, n, style, depth)),
    decreases fields, n,
{
    if n == 0 || n > fields.len() {
    } else {
        lemma_fixed_texts_single_line();
        lemma_fields_single_line(fields, (n - 1) as nat, style, depth);
        assert(well_formed(fields[n - 1].1));
        lemma_name_key_single_line(fields[n - 1].0@);
        lemma_compact_is_single_line(fields[n - 1].1, style, depth);
        lemma_lead_and_close_single_line(n == 1, style, depth);
        let lead = element_lead(n == 1, style, depth);
        let name = name_key(fields[n - 1].0@);
        let value = encoded(fields[n - 1].1, style, depth);
        lemma_single_line_joined(lead, name);
        lemma_single_line_joined(lead + name, " = "@);
        lemma_single_line_joined(lead + name + " = "@, value);
        lemma_single_line_joined(
            fields_text(fields, (n - 1) as nat, style, depth),
            field_line(n == 1, fields[n - 1].0@, value, style, depth),
        );
    }
}

/// The text of an integer is decided by its value alone: not by the width
/// it was declared with, not by how sign and magnitude were held, and not by
/// the layout or the depth at which it is written.
pub proof fn lemma_integer_text_by_value(
    a: Int,
    b: Int,
    style_a: Style,
    style_b: Style,
    depth_a: nat,
    depth_b: nat,
)
    requires
        a@ == b@,
    ensures
        encoded(Value::Integer(a), style_a, depth_a) == encoded(
            Value::Integer(b),
            style_b,
            depth_b,
        ),
        encoded(Value::Integer(a), style_a, depth_a) == integer_text(a@),
{
}

/// Each level of nesting adds one indent unit to the indent.
pub proof fn lemma_indentation_grows(unit: Seq<char>, depth: nat)
    ensures
        indentation(unit, depth + 1) == indentation(unit, depth) + unit,
        indentation(unit, depth).len() == depth * unit.len(),
    decreases depth,
{
    if depth > 0 {
        lemma_indentation_grows(unit, (depth - 1) as nat);
        assert(depth * unit.len() == (depth - 1) * unit.len() + unit.len()) by (nonlinear_arith);
    } else {
        assert(0 * unit.len() == 0) by (nonlinear_arith);
    }
}

/// In the pretty layout, each element of a table that was opened at `depth`
/// begins a line that is indented by one unit more than the line of the
/// opening brace, and the closing brace stands on a line of its own with
/// the indent of the opening brace.
pub proof fn lemma_pretty_table_layout(first: bool, style: Style, depth: nat)
    requires
        style.pretty,
    ensures
        element_lead(first, style, depth + 1) == (if first {
            "\n"@
        } else {
            ",\n"@
        }) + indentation(style.unit, depth) + style.unit,
        table_close(style, depth) == "\n"@ + indentation(style.unit, depth) + "}"@,
        indentation(style.unit, depth + 1).len() == indentation(style.unit, depth).len()
            + style.unit.len(),
{
    lemma_indentation_grows(style.unit, depth);
    lemma_indentation_grows(style.unit, depth + 1);
    let lead = if first {
        "\n"@
    } else {
        ",\n"@
    };
    assert(lead + (indentation(style.unit, depth) + style.unit) =~= lead + indentation(
        style.unit,
        depth,
    ) + style.unit);
}

/// A sequence in the pretty layout: its elements stand one level deeper than
/// the sequence, and its close returns to the indent of the sequence.
pub proof fn lemma_pretty_sequence_layout(items: Vec<Value>, style: Style, depth: nat)
    requires
        style.pretty,
    ensures
        encoded(Value::Sequence(items), style, depth) == "{"@ + elements_text(
            items@,
            items@.len(),
            style,
            depth + 1,
        ) + ("\n"@ + indentation(style.unit, depth) + "}"@),
        forall|n: nat|
            0 < n <= items@.len() ==> #[trigger] elements_text(items@, n, style, depth + 1)
                == elements_text(items@, (n - 1) as nat, style, depth + 1) + ((if n == 1 {
                "\n"@
            } else {
                ",\n"@
            }) + indentation(style.unit, depth) + style.unit + encoded(
                items@[n - 1],
                style,
                depth + 1,
            )),
{
    lemma_pretty_table_layout(true, style, depth);
    lemma_pretty_table_layout(false, style, depth);
}

/// A value of string kind is written like the string it holds.
pub proof fn lemma_string_kind_text(v: Value, style: Style, depth: nat)
    requires
        kind_of(v) == Type::String,
    ensures
        encoded(v, style, depth) == string_text(string_of(v), style.key_mode),
    decreases v,
{
    match v {
        Value::Present(inner) => {
            lemma_string_kind_text(*inner, style, depth);
        },
        _ => {},
    }
}

/// A map key of string kind is written bare exactly if what it holds is an
/// identifier and no reserved word; any other is written quoted and between
/// brackets. The layout around the key makes no difference.
pub proof fn lemma_string_key_form(key: Value, style: Style, depth: nat)
    requires
        kind_of(key) == Type::String,
    ensures
        is_identifier_spec(string_of(key)) ==> key_text(key, style, depth) == string_of(key),
        !is_identifier_spec(string_of(key)) ==> key_text(key, style, depth) == "["@ + quoted(
            string_of(key),
        ) + "]"@,
        key_text(key, style, depth) == string_of(key) <==> is_identifier_spec(string_of(key)),
{
    lemma_string_kind_text(key, style.for_key(), depth);
    lemma_quoted_single_line(string_of(key));
    reveal_strlit("[");
    reveal_strlit("]");
}

/// The name of a field and the tag of a variant follow the rule of string
/// keys: bare exactly if the name is an identifier and no reserved word,
/// else quoted and between brackets.
pub proof fn lemma_name_key_form(name: Seq<char>)
    ensures
        is_identifier_spec(name) ==> name_key(name) == name,
        !is_identifier_spec(name) ==> name_key(name) == "["@ + quoted(name) + "]"@,
        name_key(name) == name <==> is_identifier_spec(name),
{
    lemma_quoted_single_line(name);
    reveal_strlit("[");
    reveal_strlit("]");
}

/// A map key that is not of string kind is written between brackets, on one
/// line, whether the map around it is pretty or compact.
pub proof fn lemma_other_key_form(key: Value, style: Style, depth: nat)
    requires
        kind_of(key) != Type::String,
    ensures
        key_text(key, style, depth) == "["@ + encoded(key, style.compact(), depth) + "]"@,
        key_text(key, style, depth) == key_text(key, Style { pretty: !style.pretty, ..style }, depth),
        key_text(key, style, depth).first() == '[',
        key_text(key, style, depth).last() == ']',
{
    reveal_strlit("[");
    reveal_strlit("]");
    let other = Style { pretty: !style.pretty, ..style };
    assert(other.compact() == style.compact());
}

/// An absent optional and a present optional of the unit are written as the
/// same text, `nil`: the encoding does not tell them apart.
pub proof fn lemma_absent_and_present_unit(style: Style, depth: nat)
    ensures
        encoded(Value::Absent, style, depth) == "nil"@,
        encoded(Value::Present(Box::new(Value::Nil)), style, depth) == "nil"@,
        encoded(Value::Absent, style, depth) == encoded(
            Value::Present(Box::new(Value::Nil)),
            style,
            depth,
        ),
{
    assert(encoded(Value::Nil, style, depth) == "nil"@);
}

/// Whether bytes hold no line feed.
pub open spec fn no_line_feed(bytes: Seq<u8>) -> bool {
    forall|i: int| 0 <= i < bytes.len() ==> bytes[i] != 0x0A
}

proof fn lemma_scalar_bytes_no_line_feed(c: char)
    requires
        c != '\n',
    ensures
        no_line_feed(encode_scalar(c as u32)),
{
    let s = c as u32;
    assert(s != 0x0A);
    assert(s <= 0x7F ==> (s & 0x7F) as u8 != 0x0A) by (bit_vector)
        requires
            s != 0x0A,
    ;
    assert((0xC0u8 | ((s >> 6) & 0x1F) as u8) != 0x0A) by (bit_vector);
    assert((0xE0u8 | ((s >> 12) & 0x0F) as u8) != 0x0A) by (bit_vector);
    assert((0xF0u8 | ((s >> 18) & 0x7) as u8) != 0x0A) by (bit_vector);
    assert((0x80u8 | (s & 0x3F) as u8) != 0x0A) by (bit_vector);
    assert((0x80u8 | ((s >> 6) & 0x3F) as u8) != 0x0A) by (bit_vector);
    assert((0x80u8 | ((s >> 12) & 0x3F) as u8) != 0x0A) by (bit_vector);
}

/// A text without a newline has no line feed among its UTF-8 bytes.
pub proof fn lemma_single_line_as_utf8(s: Seq<char>)
    requires
        single_line(s),
    ensures
        no_line_feed(encode_utf8(s)),
    decreases s.len(),
{
    if s.len() > 0 {
        lemma_scalar_bytes_no_line_feed(s[0]);
        lemma_single_line_as_utf8(s.drop_first());
    }
}

} // verus!

//! The encoder: a serializer that writes table-literal text.

use vstd::prelude::*;
use vstd::string::*;
use vstd::std_specs::iter::IteratorSpec;
use vstd::utf8::*;
use crate::error::{Error, Result};
use crate::format::{
    bytes_text, element_lead, element_line, elements_text, encoded, entries_text, entry_line,
    escaped, field_line, fields_text, indent_text, indentation, is_identifier_char_spec,
    is_identifier_spec, is_reserved_word, key_text, name_key, string_text, table_close,
    table_text, variant_text, Style,
};
use crate::type_ser::{compute_type, Type};
use crate::laws::{
    lemma_compact_is_single_line, lemma_single_line_as_utf8, no_line_feed, single_line,
};
use crate::value::{well_formed, Value};
use crate::parser::Int;
use crate::text::{integer_text, push_char, push_decimal, same_text};

verus! {

broadcast use vstd::string::group_string_axioms;

/// The layout of the two entry points: two spaces for each level, no key
/// mode at the start.
pub open spec fn entry_style(pretty: bool) -> Style {
    Style { unit: "  "@, pretty: pretty, key_mode: false }
}

/// Encodes `value` on one line and appends the text, as UTF-8, to `writer`:
/// what is appended holds no line feed.
pub fn to_writer(value: &Value, writer: &mut Vec<u8>) -> (r: Result<()>)
    ensures
        r is Ok,
        final(writer)@ == old(writer)@ + encode_utf8(encoded(*value, entry_style(false), 0)),
        well_formed(*value) ==> no_line_feed(final(writer)@.skip(old(writer)@.len() as int)),
{
    let mut serializer = Serializer::new("  ".to_owned(), false);
    value.serialize(&mut serializer)?;
    let text = serializer.into_output();
    writer.extend_from_slice(text.as_str().as_bytes());
    proof {
        assert(writer@ =~= old(writer)@ + encode_utf8(text@));
        assert(writer@.skip(old(writer)@.len() as int) =~= encode_utf8(text@));
        if well_formed(*value) {
            lemma_compact_is_single_line(*value, entry_style(false), 0);
            lemma_single_line_as_utf8(text@);
        }
    }
    Ok(())
}

/// Encodes `value` over several lines, indented by two spaces for each
/// level, and appends the text, as UTF-8, to `writer`.
pub fn to_writer_pretty(value: &Value, writer: &mut Vec<u8>) -> (r: Result<()>)
    ensures
        r is Ok,
        final(writer)@ == old(writer)@ + encode_utf8(encoded(*value, entry_style(true), 0)),
{
    let mut serializer = Serializer::new("  ".to_owned(), true);
    value.serialize(&mut serializer)?;
    let text = serializer.into_output();
    writer.extend_from_slice(text.as_str().as_bytes());
    assert(writer@ =~= old(writer)@ + encode_utf8(text@));
    Ok(())
}

/// Encodes `value` on one line: the text holds no newline.
pub fn to_string(value: &Value) -> (r: Result<String>)
    ensures
        r is Ok,
        r->Ok_0@ == encoded(*value, entry_style(false), 0),
        well_formed(*value) ==> single_line(r->Ok_0@),
{
    let mut output: Vec<u8> = Vec::new();
    to_writer(value, &mut output)?;
    proof {
        assert(output@ =~= encode_utf8(encoded(*value, entry_style(false), 0)));
        if well_formed(*value) {
            lemma_compact_is_single_line(*value, entry_style(false), 0);
        }
    }
    text_of(output.as_slice())
}

/// Encodes `value` over several lines, indented by two spaces for each
/// level.
pub fn to_string_pretty(value: &Value) -> (r: Result<String>)
    ensures
        r is Ok,
        r->Ok_0@ == encoded(*value, entry_style(true), 0),
{
    let mut output: Vec<u8> = Vec::new();
    to_writer_pretty(value, &mut output)?;
    proof {
        assert(output@ =~= encode_utf8(encoded(*value, entry_style(true), 0)));
    }
    text_of(output.as_slice())
}

/// Whether `n` is the length of the longest prefix of `bytes` that is valid
/// UTF-8.
pub open spec fn is_valid_prefix_len(bytes: Seq<u8>, n: int) -> bool {
    &&& 0 <= n <= bytes.len()
    &&& valid_utf8(bytes.take(n))
    &&& forall|k: int| n < k <= bytes.len() ==> !valid_utf8(#[trigger] bytes.take(k))
}

/// The text that `bytes` hold as UTF-8. Bytes that are no UTF-8 are refused
/// with the length of their longest valid prefix.
pub fn text_of(bytes: &[u8]) -> (r: Result<String>)
    ensures
        valid_utf8(bytes@) ==> r is Ok && r->Ok_0@ == decode_utf8(bytes@),
        !valid_utf8(bytes@) ==> r is Err && r->Err_0 is InvalidUtf8 && is_valid_prefix_len(
            bytes@,
            r->Err_0->valid_up_to as int,
        ),
        forall|chars: Seq<char>| bytes@ == encode_utf8(chars) ==> r is Ok && r->Ok_0@ == chars,
{
    proof {
        assert forall|chars: Seq<char>| bytes@ == encode_utf8(chars) implies valid_utf8(bytes@)
            && decode_utf8(bytes@) == chars by {
            encode_utf8_valid_utf8(chars);
            encode_utf8_decode_utf8(chars);
        }
    }
    match core::str::from_utf8(bytes) {
        Ok(text) => {
            proof {
                encode_utf8_decode_utf8(text@);
            }
            Ok(text.to_owned())
        },
        Err(error) => Err(
            Error::InvalidUtf8 { valid_up_to: error.valid_up_to(), error_len: error.error_len() },
        ),
    }
}

/// The state of one traversal: the configuration it was made with, the
/// tables that are open, and the text written so far.
pub struct Serializer {
    indent_str: String,
    indent: Vec<bool>,
    enable_indent: bool,
    serializing_key: bool,
    output: String,
}

/// What a [`Serializer`] holds, as mathematical values.
pub ghost struct SerializerView {
    /// The indent unit, the layout and the key mode.
    pub style: Style,
    /// One marker for each open table, the innermost last: whether no
    /// element of that table has been written yet.
    pub markers: Seq<bool>,
    /// The text written so far.
    pub text: Seq<char>,
}

impl SerializerView {
    /// The number of open tables.
    pub open spec fn depth(self) -> nat {
        self.markers.len()
    }

    /// Whether a table is open and nothing has been written in it.
    pub open spec fn at_table_start(self) -> bool {
        self.markers.len() > 0 && self.markers.last()
    }

    /// The same state with `t` written behind the text.
    pub open spec fn wrote(self, t: Seq<char>) -> SerializerView {
        SerializerView { text: self.text + t, ..self }
    }

    /// The same state with one more table open.
    pub open spec fn opened(self) -> SerializerView {
        SerializerView { markers: self.markers.push(true), ..self }
    }

    /// The same state without the innermost table, if there is one.
    pub open spec fn closed(self) -> SerializerView {
        if self.markers.len() > 0 {
            SerializerView { markers: self.markers.drop_last(), ..self }
        } else {
            self
        }
    }

    /// The same state after an element was begun in the innermost table.
    pub open spec fn begun(self) -> SerializerView {
        if self.markers.len() > 0 {
            SerializerView {
                markers: self.markers.update(self.markers.len() - 1, false),
                ..self
            }
        } else {
            self
        }
    }

}

impl View for Serializer {
    type V = SerializerView;

    closed spec fn view(&self) -> SerializerView {
        SerializerView {
            style: Style {
                unit: self.indent_str@,
                pretty: self.enable_indent,
                key_mode: self.serializing_key,
            },
            markers: self.indent@,
            text: self.output@,
        }
    }
}

impl Serializer {
    /// A serializer that has written nothing, with no table open.
    pub fn new(indent_str: String, enable_indent: bool) -> (s: Serializer)
        ensures
            s@ == (SerializerView {
                style: Style { unit: indent_str@, pretty: enable_indent, key_mode: false },
                markers: Seq::empty(),
                text: Seq::empty(),
            }),
    {
        Serializer {
            indent_str: indent_str,
            indent: Vec::new(),
            enable_indent: enable_indent,
            serializing_key: false,
            output: String::new(),
        }
    }

    /// The text written so far.
    pub fn output(&self) -> (text: &str)
        ensures
            text@ == self@.text,
    {
        self.output.as_str()
    }

    /// Ends the traversal and hands out the text.
    pub fn into_output(self) -> (text: String)
        ensures
            text@ == self@.text,
    {
        self.output
    }

    #[inline]
    pub fn enable_indent(&self) -> (pretty: bool)
        ensures
            pretty == self@.style.pretty,
    {
        self.enable_indent
    }

    /// Writes the indent of the current depth; nothing on one line.
    pub fn write_indent(&mut self) -> (r: Result<()>)
        ensures
            r is Ok,
            final(self)@ == old(self)@.wrote(indent_text(old(self)@.style, old(self)@.depth())),
    {
        if !self.enable_indent() {
            assert(self@.text =~= self@.text + Seq::<char>::empty());
            return Ok(());
        }
        let ghost before = self@;
        let depth = self.indent.len();
        let mut idx: usize = 0;
        assert(self@.text =~= self@.text + Seq::<char>::empty());
        while idx < depth
            invariant
                idx <= depth,
                depth == before.depth(),
                self@ == before.wrote(indentation(before.style.unit, idx as nat)),
            decreases depth - idx,
        {
            self.output.append(self.indent_str.as_str());
            idx += 1;
            assert(self@.text =~= before.text + indentation(before.style.unit, idx as nat));
        }
        Ok(())
    }

    /// Opens one level of nesting.
    pub fn indent(&mut self)
        ensures
            final(self)@ == old(self)@.opened(),
    {
        self.indent.push(true);
    }

    /// Closes one level of nesting, if there is one.
    pub fn dedent(&mut self)
        ensures
            final(self)@ == old(self)@.closed(),
    {
        if self.indent.len() > 0 {
            self.indent.pop();
        }
    }

    pub fn is_table_start(&self) -> (r: bool)
        ensures
            r == self@.at_table_start(),
    {
        if self.indent.len() == 0 {
            return false;
        }
        self.indent[self.indent.len() - 1]
    }

    pub fn clear_table_start(&mut self)
        ensures
            final(self)@ == old(self)@.begun(),
    {
        if self.indent.len() > 0 {
            let last = self.indent.len() - 1;
            self.indent[last] = false;
        }
    }

    /// Writes the opening brace of a table and opens one level.
    pub fn start_table(&mut self) -> (r: Result<()>)
        ensures
            r is Ok,
            final(self)@ == old(self)@.wrote("{"@).opened(),
    {
        self.output.append("{");
        self.indent();
        Ok(())
    }

    /// Closes the innermost table: a line break, the indent of the depth
    /// outside it, and the closing brace.
    pub fn end_table(&mut self) -> (r: Result<()>)
        ensures
            r is Ok,
            final(self)@ == old(self)@.closed().wrote(
                table_close(old(self)@.style, old(self)@.closed().depth()),
            ),
    {
        if self.enable_indent() {
            self.write("\n")?;
        } else {
            self.write(" ")?;
        }
        self.dedent();
        self.write_indent()?;
        self.write("}")?;
        assert(self@.text =~= old(self)@.text + table_close(
            old(self)@.style,
            old(self)@.closed().depth(),
        ));
        Ok(())
    }

    /// Writes `text` as it is.
    pub fn write(&mut self, text: &str) -> (r: Result<()>)
        ensures
            r is Ok,
            final(self)@ == old(self)@.wrote(text@),
    {
        self.output.append(text);
        Ok(())
    }

    pub fn serialize_bool(&mut self, v: bool) -> (r: Result<()>)
        ensures
            r is Ok,
            final(self)@ == old(self)@.wrote(
                if v {
                    "true"@
                } else {
                    "false"@
                },
            ),
    {
        self.write((if v {
            "true"
        } else {
            "false"
        }))?;
        Ok(())
    }

    // Lua does not tell integers of different sizes apart, so every integer
    // is written in the same way, by its value alone.
    pub fn serialize_i8(&mut self, v: i8) -> (r: Result<()>)
        ensures
            r is Ok,
            final(self)@ == old(self)@.wrote(integer_text(v as int)),
    {
        self.serialize_i128(v as i128)
    }

    pub fn serialize_i16(&mut self, v: i16) -> (r: Result<()>)
        ensures
            r is Ok,
            final(self)@ == old(self)@.wrote(integer_text(v as int)),
    {
        self.serialize_i128(v as i128)
    }

    pub fn serialize_i32(&mut self, v: i32) -> (r: Result<()>)
        ensures
            r is Ok,
            final(self)@ == old(self)@.wrote(integer_text(v as int)),
    {
        self.serialize_i128(v as i128)
    }

    pub fn serialize_i64(&mut self, v: i64) -> (r: Result<()>)
        ensures
            r is Ok,
            final(self)@ == old(self)@.wrote(integer_text(v as int)),
    {
        self.serialize_i128(v as i128)
    }

    pub fn serialize_i128(&mut self, v: i128) -> (r: Result<()>)
        ensures
            r is Ok,
            final(self)@ == old(self)@.wrote(integer_text(v as int)),
    {
        if v < 0 {
            self.write("-")?;
            proof {
                reveal_strlit("-");
                assert("-"@ =~= seq!['-']);
            }
            // The magnitude of the least value does not fit the signed type.
            let magnitude: u128 = ((-(v + 1)) as u128) + 1;
            push_decimal(&mut self.output, magnitude);
            assert(self@.text =~= old(self)@.text + integer_text(v as int));
        } else {
            push_decimal(&mut self.output, v as u128);
        }
        Ok(())
    }

    pub fn serialize_u8(&mut self, v: u8) -> (r: Result<()>)
        ensures
            r is Ok,
            final(self)@ == old(self)@.wrote(integer_text(v as int)),
    {
        self.serialize_u128(v as u128)
    }

    pub fn serialize_u16(&mut self, v: u16) -> (r: Result<()>)
        ensures
            r is Ok,
            final(self)@ == old(self)@.wrote(integer_text(v as int)),
    {
        self.serialize_u128(v as u128)
    }

    pub fn serialize_u32(&mut self, v: u32) -> (r: Result<()>)
        ensures
            r is Ok,
            final(self)@ == old(self)@.wrote(integer_text(v as int)),
    {
        self.serialize_u128(v as u128)
    }

    pub fn serialize_u64(&mut self, v: u64) -> (r: Result<()>)
        ensures
            r is Ok,
            final(self)@ == old(self)@.wrote(integer_text(v as int)),
    {
        self.serialize_u128(v as u128)
    }

    pub fn serialize_u128(&mut self, v: u128) -> (r: Result<()>)
        ensures
            r is Ok,
            final(self)@ == old(self)@.wrote(integer_text(v as int)),
    {
        push_decimal(&mut self.output, v);
        Ok(())
    }

    /// Writes an integer given as sign and magnitude. A negative zero is
    /// written as zero.
    pub fn serialize_int(&mut self, v: &Int) -> (r: Result<()>)
        ensures
            r is Ok,
            final(self)@ == old(self)@.wrote(integer_text(v@)),
    {
        if v.negative && v.value > 0 {
            self.write("-")?;
            proof {
                reveal_strlit("-");
                assert("-"@ =~= seq!['-']);
            }
            push_decimal(&mut self.output, v.value);
            assert(self@.text =~= old(self)@.text + integer_text(v@));
        } else {
            push_decimal(&mut self.output, v.value);
        }
        Ok(())
    }

    /// Writes a floating-point number that comes as its decimal text.
    pub fn serialize_float(&mut self, text: &str) -> (r: Result<()>)
        ensures
            r is Ok,
            final(self)@ == old(self)@.wrote(text@),
    {
        self.write(text)
    }

    // A character is written as the string of that one character.
    pub fn serialize_char(&mut self, v: char) -> (r: Result<()>)
        ensures
            r is Ok,
            final(self)@ == old(self)@.wrote(string_text(seq![v], old(self)@.style.key_mode)),
    {
        let mut text = String::new();
        push_char(&mut text, v);
        assert(text@ =~= seq![v]);
        self.serialize_str(text.as_str())
    }

    /// Writes a string: in key mode bare if it is an identifier and else
    /// quoted between brackets, otherwise quoted.
    pub fn serialize_str(&mut self, v: &str) -> (r: Result<()>)
        ensures
            r is Ok,
            final(self)@ == old(self)@.wrote(string_text(v@, old(self)@.style.key_mode)),
    {
        if self.serializing_key && is_identifier(v) {
            self.write(v)?;
            return Ok(())
        }
        if self.serializing_key {
            self.write("[")?;
        }
        self.write("\"")?;
        let ghost opened = self@;
        assert(opened.text =~= opened.text + escaped(v@.take(0)));
        for c in it: v.chars()
            invariant
                it.seq() == v@,
                self@ == opened.wrote(escaped(v@.take(it.index() as int))),
        {
            let ghost before = self@;
            match c {
                '"' => self.write("\\\"")?,
                '\'' => self.write("\\'")?,
                '\x07' => self.write("\\a")?,
                '\x08' => self.write("\\b")?,
                '\x12' => self.write("\\f")?,
                '\n' => self.write("\\n")?,
                '\r' => self.write("\\r")?,
                '\t' => self.write("\\t")?,
                '\x11' => self.write("\\v")?,
                '\\' => self.write("\\\\")?,
                '[' => self.write("\\[")?,
                ']' => self.write("\\]")?,
                _ => push_char(&mut self.output, c),
            };
            proof {
                let done = v@.take(it.index() + 1);
                assert(done.drop_last() =~= v@.take(it.index() as int));
                assert(done.last() == c);
                assert(before.text.push(c) =~= before.text + seq![c]);
                assert(self@.text =~= opened.text + escaped(done));
            }
        }
        assert(v@.take(v@.len() as int) =~= v@);
        self.write("\"")?;
        if self.serializing_key {
            self.write("]")?;
        }
        assert(self@.text =~= old(self)@.text + string_text(v@, old(self)@.style.key_mode));
        Ok(())
    }

    /// Writes a byte string as a table of its bytes, always on one line.
    pub fn serialize_bytes(&mut self, v: &[u8]) -> (r: Result<()>)
        ensures
            r is Ok,
            final(self)@ == old(self)@.wrote("{"@ + bytes_text(v@, v@.len()) + " }"@),
    {
        let current_indent = self.enable_indent;
        self.enable_indent = false;
        self.serialize_seq()?;
        let ghost opened = self@;
        assert(opened.text =~= opened.text + bytes_text(v@, 0));
        let mut i: usize = 0;
        while i < v.len()
            invariant
                i <= v.len(),
                !opened.style.pretty,
                self@ == (SerializerView {
                    markers: old(self)@.markers.push(i == 0),
                    text: opened.text + bytes_text(v@, i as nat),
                    ..opened
                }),
            decreases v.len() - i,
        {
            self.begin_element()?;
            self.serialize_u8(v[i])?;
            i += 1;
            proof {
                assert(old(self)@.markers.push(i == 1).update(old(self)@.markers.len() as int, false)
                    =~= old(self)@.markers.push(false));
                assert(self@.text =~= opened.text + bytes_text(v@, i as nat));
            }
        }
        self.end()?;
        self.enable_indent = current_indent;
        proof {
            assert(old(self)@.markers.push(v.len() == 0).drop_last() =~= old(self)@.markers);
            assert(self@.text =~= old(self)@.text + ("{"@ + bytes_text(v@, v@.len()) + " }"@)) by {
                reveal_strlit(" ");
                reveal_strlit("}");
                reveal_strlit(" }");
                assert(" "@ + Seq::<char>::empty() + "}"@ =~= " }"@);
            }
        }
        Ok(())
    }

    // An absent optional is written as `nil`.
    pub fn serialize_none(&mut self) -> (r: Result<()>)
        ensures
            r is Ok,
            final(self)@ == old(self)@.wrote("nil"@),
    {
        self.serialize_unit()
    }

    // A present optional is written as the value it holds. This loses
    // something: `Some(())` and `None` are both written as `nil`.
    pub fn serialize_some(&mut self, value: &Value) -> (r: Result<()>)
        ensures
            r is Ok,
            final(self)@ == old(self)@.wrote(encoded(*value, old(self)@.style, old(self)@.depth())),
        decreases value, 1nat,
    {
        value.serialize(self)
    }

    pub fn serialize_unit(&mut self) -> (r: Result<()>)
        ensures
            r is Ok,
            final(self)@ == old(self)@.wrote("nil"@),
    {
        self.write("nil")?;
        Ok(())
    }

    // A variant without data is written as its name.
    pub fn serialize_unit_variant(&mut self, variant: &str) -> (r: Result<()>)
        ensures
            r is Ok,
            final(self)@ == old(self)@.wrote(string_text(variant@, old(self)@.style.key_mode)),
    {
        self.serialize_str(variant)
    }

    /// Writes a name in key position: as a string in key mode, so bare if
    /// it is an identifier and else quoted between brackets.
    fn write_name(&mut self, name: &str) -> (r: Result<()>)
        ensures
            r is Ok,
            final(self)@ == old(self)@.wrote(name_key(name@)),
    {
        let current_key = self.serializing_key;
        self.serializing_key = true;
        self.serialize_str(name)?;
        self.serializing_key = current_key;
        Ok(())
    }

    /// Writes the opening of a variant with a payload: `{ NAME = `.
    fn start_variant(&mut self, variant: &str) -> (r: Result<()>)
        ensures
            r is Ok,
            final(self)@ == old(self)@.wrote(
                "{ "@ + name_key(variant@) + " = "@,
            ),
    {
        self.write("{ ")?;
        self.write_name(variant)?;
        self.write(" = ")?;
        assert(self@.text =~= old(self)@.text + ("{ "@ + name_key(variant@) + " = "@));
        Ok(())
    }

    // A variant is written with its tag outside: `{ NAME = VALUE }`.
    pub fn serialize_newtype_variant(&mut self, variant: &str, value: &Value) -> (r: Result<()>)
        ensures
            r is Ok,
            final(self)@ == old(self)@.wrote(
                variant_text(variant@, encoded(*value, old(self)@.style, old(self)@.depth())),
            ),
        decreases value, 1nat,
    {
        self.start_variant(variant)?;
        value.serialize(self)?;
        self.write(" }")?;
        assert(self@.text =~= old(self)@.text + variant_text(
            variant@,
            encoded(*value, old(self)@.style, old(self)@.depth()),
        ));
        Ok(())
    }

    // The start of a sequence or tuple, each element and the end are calls
    // of their own. This one writes the start, which is `{`. The length is
    // not written, so it need not be known.
    pub fn serialize_seq(&mut self) -> (r: Result<()>)
        ensures
            r is Ok,
            final(self)@ == old(self)@.wrote("{"@).opened(),
    {
        self.start_table()?;
        Ok(())
    }

    // A tuple variant is written as `{ NAME = { DATA... } }`: this is the
    // part up to the inner brace, `end_variant` closes both.
    pub fn serialize_tuple_variant(&mut self, variant: &str) -> (r: Result<()>)
        ensures
            r is Ok,
            final(self)@ == old(self)@.wrote(
                "{ "@ + name_key(variant@) + " = "@ + "{"@,
            ).opened(),
    {
        self.start_variant(variant)?;
        self.start_table()?;
        assert(self@.text =~= old(self)@.text + ("{ "@ + name_key(variant@) + " = "@ + "{"@));
        Ok(())
    }

    // A map is written as `{ K = V, K = V, ... }`.
    pub fn serialize_map(&mut self) -> (r: Result<()>)
        ensures
            r is Ok,
            final(self)@ == old(self)@.wrote("{"@).opened(),
    {
        self.start_table()?;
        Ok(())
    }

    // A struct looks like a map whose keys are its field names.
    pub fn serialize_struct(&mut self) -> (r: Result<()>)
        ensures
            r is Ok,
            final(self)@ == old(self)@.wrote("{"@).opened(),
    {
        self.serialize_map()
    }

    // A struct variant is written as `{ NAME = { K = V, ... } }`: this is
    // the part up to the inner brace, `end_variant` closes both.
    pub fn serialize_struct_variant(&mut self, variant: &str) -> (r: Result<()>)
        ensures
            r is Ok,
            final(self)@ == old(self)@.wrote(
                "{ "@ + name_key(variant@) + " = "@ + "{"@,
            ).opened(),
    {
        self.start_variant(variant)?;
        self.start_table()?;
        assert(self@.text =~= old(self)@.text + ("{ "@ + name_key(variant@) + " = "@ + "{"@));
        Ok(())
    }

    /// Writes what stands in front of an element of the innermost table:
    /// a line break before the first, a separator before the others, then
    /// the indent.
    pub fn begin_element(&mut self) -> (r: Result<()>)
        ensures
            r is Ok,
            final(self)@ == old(self)@.begun().wrote(
                element_lead(old(self)@.at_table_start(), old(self)@.style, old(self)@.depth()),
            ),
    {
        if !self.is_table_start() {
            if self.enable_indent() {
                self.write(",\n")?;
            } else {
                self.write(", ")?;
            }
        } else {
            if self.enable_indent() {
                self.write("\n")?;
            } else {
                self.write(" ")?;
            }
            self.clear_table_start();
        }
        self.write_indent()?;
        proof {
            assert(old(self)@.begun().markers =~= self@.markers);
            assert(self@.text =~= old(self)@.text + element_lead(
                old(self)@.at_table_start(),
                old(self)@.style,
                old(self)@.depth(),
            ));
        }
        Ok(())
    }

    /// Writes one element of a sequence, a tuple or a tuple variant.
    pub fn serialize_element(&mut self, value: &Value) -> (r: Result<()>)
        ensures
            r is Ok,
            final(self)@ == old(self)@.begun().wrote(
                element_line(
                    old(self)@.at_table_start(),
                    encoded(*value, old(self)@.style, old(self)@.depth()),
                    old(self)@.style,
                    old(self)@.depth(),
                ),
            ),
        decreases value, 1nat,
    {
        self.begin_element()?;
        value.serialize(self)?;
        assert(self@.text =~= old(self)@.text + element_line(
            old(self)@.at_table_start(),
            encoded(*value, old(self)@.style, old(self)@.depth()),
            old(self)@.style,
            old(self)@.depth(),
        ));
        Ok(())
    }

    /// Closes a sequence, a tuple, a map or a struct.
    pub fn end(&mut self) -> (r: Result<()>)
        ensures
            r is Ok,
            final(self)@ == old(self)@.closed().wrote(
                table_close(old(self)@.style, old(self)@.closed().depth()),
            ),
    {
        self.end_table()?;
        Ok(())
    }

    /// Closes a tuple variant or a struct variant: the inner table, then
    /// the brace that the tag stands in.
    pub fn end_variant(&mut self) -> (r: Result<()>)
        ensures
            r is Ok,
            final(self)@ == old(self)@.closed().wrote(
                table_close(old(self)@.style, old(self)@.closed().depth()) + " }"@,
            ),
    {
        self.end_table()?;
        self.write(" }")?;
        assert(self@.text =~= old(self)@.text + (table_close(
            old(self)@.style,
            old(self)@.closed().depth(),
        ) + " }"@));
        Ok(())
    }

    /// Writes the key of one entry of a map, without what stands in front
    /// of the entry. A key of string kind is written in key mode, any other
    /// between brackets, both on one line.
    fn write_key(&mut self, key: &Value) -> (r: Result<()>)
        ensures
            r is Ok,
            final(self)@ == old(self)@.wrote(
                key_text(*key, old(self)@.style, old(self)@.depth()),
            ),
        decreases key, 1nat,
    {
        let current_indent = self.enable_indent;
        self.enable_indent = false;
        let ser_type = compute_type(key)?;
        if ser_type == Type::String {
            let current_key = self.serializing_key;
            self.serializing_key = true;

            key.serialize(self)?;

            self.serializing_key = current_key;
        } else {
            self.write("[")?;
            key.serialize(self)?;
            self.write("]")?;
            assert(self@.text =~= old(self)@.text + key_text(
                *key,
                old(self)@.style,
                old(self)@.depth(),
            ));
        }
        self.enable_indent = current_indent;
        Ok(())
    }

    /// Writes the key of one entry of a map: what stands in front of the
    /// entry, then the key in its form.
    pub fn serialize_key(&mut self, key: &Value) -> (r: Result<()>)
        ensures
            r is Ok,
            final(self)@ == old(self)@.begun().wrote(
                element_lead(old(self)@.at_table_start(), old(self)@.style, old(self)@.depth())
                    + key_text(*key, old(self)@.style, old(self)@.depth()),
            ),
        decreases key, 2nat,
    {
        self.begin_element()?;
        self.write_key(key)?;
        assert(self@.text =~= old(self)@.text + (element_lead(
            old(self)@.at_table_start(),
            old(self)@.style,
            old(self)@.depth(),
        ) + key_text(*key, old(self)@.style, old(self)@.depth())));
        Ok(())
    }

    /// Writes the value of one entry of a map, behind ` = `.
    pub fn serialize_value(&mut self, value: &Value) -> (r: Result<()>)
        ensures
            r is Ok,
            final(self)@ == old(self)@.wrote(
                " = "@ + encoded(*value, old(self)@.style, old(self)@.depth()),
            ),
        decreases value, 1nat,
    {
        self.write(" = ")?;
        value.serialize(self)?;
        assert(self@.text =~= old(self)@.text + (" = "@ + encoded(
            *value,
            old(self)@.style,
            old(self)@.depth(),
        )));
        Ok(())
    }

    /// Writes one field of a struct or of a struct variant.
    pub fn serialize_field(&mut self, key: &str, value: &Value) -> (r: Result<()>)
        ensures
            r is Ok,
            final(self)@ == old(self)@.begun().wrote(
                field_line(
                    old(self)@.at_table_start(),
                    key@,
                    encoded(*value, old(self)@.style, old(self)@.depth()),
                    old(self)@.style,
                    old(self)@.depth(),
                ),
            ),
        decreases value, 1nat,
    {
        self.begin_element()?;
        self.write_name(key)?;
        self.write(" = ")?;
        value.serialize(self)?;
        assert(self@.text =~= old(self)@.text + field_line(
            old(self)@.at_table_start(),
            key@,
            encoded(*value, old(self)@.style, old(self)@.depth()),
            old(self)@.style,
            old(self)@.depth(),
        ));
        Ok(())
    }
}

impl Value {
    /// Writes this value to `serializer`, at its depth and in its layout.
    /// The tables that were open stay as they were.
    pub fn serialize(&self, serializer: &mut Serializer) -> (r: Result<()>)
        ensures
            r is Ok,
            final(serializer)@ == old(serializer)@.wrote(
                encoded(*self, old(serializer)@.style, old(serializer)@.depth()),
            ),
        decreases self, 0nat,
    {
        match self {
            Value::Nil => serializer.serialize_unit(),
            Value::Boolean(b) => serializer.serialize_bool(*b),
            Value::Integer(i) => serializer.serialize_int(i),
            Value::Float(t) => serializer.serialize_float(t.as_str()),
            Value::Char(c) => serializer.serialize_char(*c),
            Value::String(s) => serializer.serialize_str(s.as_str()),
            Value::Bytes(b) => serializer.serialize_bytes(b.as_slice()),
            Value::Absent => serializer.serialize_none(),
            Value::Present(inner) => serializer.serialize_some(inner),
            Value::Sequence(items) => serialize_sequence(serializer, items),
            Value::Mapping(entries) => serialize_mapping(serializer, entries),
            Value::Struct(fields) => serialize_record(serializer, fields),
            Value::UnitVariant(tag) => serializer.serialize_unit_variant(tag.as_str()),
            Value::NewtypeVariant(tag, payload) => serializer.serialize_newtype_variant(
                tag.as_str(),
                payload,
            ),
            Value::TupleVariant(tag, items) => serialize_tuple_payload(
                serializer,
                tag.as_str(),
                items,
            ),
            Value::StructVariant(tag, fields) => serialize_struct_payload(
                serializer,
                tag.as_str(),
                fields,
            ),
        }
    }
}

/// Writes a sequence: the brace, the elements, the close.
fn serialize_sequence(serializer: &mut Serializer, items: &Vec<Value>) -> (r: Result<()>)
    ensures
        r is Ok,
        final(serializer)@ == old(serializer)@.wrote(
            table_text(
                elements_text(
                    items@,
                    items@.len(),
                    old(serializer)@.style,
                    old(serializer)@.depth() + 1,
                ),
                old(serializer)@.style,
                old(serializer)@.depth(),
            ),
        ),
    decreases items, 1nat,
{
    let ghost before = serializer@;
    serializer.serialize_seq()?;
    serialize_elements(serializer, items)?;
    serializer.end()?;
    proof {
        assert(serializer@.markers =~= before.markers);
        assert(serializer@.text =~= before.text + table_text(
            elements_text(items@, items@.len(), before.style, before.depth() + 1),
            before.style,
            before.depth(),
        ));
    }
    Ok(())
}

/// Writes a map: the brace, the entries, the close.
fn serialize_mapping(serializer: &mut Serializer, entries: &Vec<(Value, Value)>) -> (r: Result<
    (),
>)
    ensures
        r is Ok,
        final(serializer)@ == old(serializer)@.wrote(
            table_text(
                entries_text(
                    entries@,
                    entries@.len(),
                    old(serializer)@.style,
                    old(serializer)@.depth() + 1,
                ),
                old(serializer)@.style,
                old(serializer)@.depth(),
            ),
        ),
    decreases entries, 1nat,
{
    let ghost before = serializer@;
    serializer.serialize_map()?;
    serialize_entries(serializer, entries)?;
    serializer.end()?;
    proof {
        assert(serializer@.markers =~= before.markers);
        assert(serializer@.text =~= before.text + table_text(
            entries_text(entries@, entries@.len(), before.style, before.depth() + 1),
            before.style,
            before.depth(),
        ));
    }
    Ok(())
}

/// Writes a struct: the brace, the fields, the close.
fn serialize_record(serializer: &mut Serializer, fields: &Vec<(String, Value)>) -> (r: Result<
    (),
>)
    ensures
        r is Ok,
        final(serializer)@ == old(serializer)@.wrote(
            table_text(
                fields_text(
                    fields@,
                    fields@.len(),
                    old(serializer)@.style,
                    old(serializer)@.depth() + 1,
                ),
                old(serializer)@.style,
                old(serializer)@.depth(),
            ),
        ),
    decreases fields, 1nat,
{
    let ghost before = serializer@;
    serializer.serialize_struct()?;
    serialize_fields(serializer, fields)?;
    serializer.end()?;
    proof {
        assert(serializer@.markers =~= before.markers);
        assert(serializer@.text =~= before.text + table_text(
            fields_text(fields@, fields@.len(), before.style, before.depth() + 1),
            before.style,
            before.depth(),
        ));
    }
    Ok(())
}

/// Writes a tuple variant: the tag, then the tuple as a table.
fn serialize_tuple_payload(serializer: &mut Serializer, tag: &str, items: &Vec<Value>) -> (r:
    Result<()>)
    ensures
        r is Ok,
        final(serializer)@ == old(serializer)@.wrote(
            variant_text(
                tag@,
                table_text(
                    elements_text(
                        items@,
                        items@.len(),
                        old(serializer)@.style,
                        old(serializer)@.depth() + 1,
                    ),
                    old(serializer)@.style,
                    old(serializer)@.depth(),
                ),
            ),
        ),
    decreases items, 1nat,
{
    let ghost before = serializer@;
    serializer.serialize_tuple_variant(tag)?;
    serialize_elements(serializer, items)?;
    serializer.end_variant()?;
    proof {
        assert(serializer@.markers =~= before.markers);
        assert(serializer@.text =~= before.text + variant_text(
            tag@,
            table_text(
                elements_text(items@, items@.len(), before.style, before.depth() + 1),
                before.style,
                before.depth(),
            ),
        ));
    }
    Ok(())
}

/// Writes a struct variant: the tag, then the fields as a table.
fn serialize_struct_payload(
    serializer: &mut Serializer,
    tag: &str,
    fields: &Vec<(String, Value)>,
) -> (r: Result<()>)
    ensures
        r is Ok,
        final(serializer)@ == old(serializer)@.wrote(
            variant_text(
                tag@,
                table_text(
                    fields_text(
                        fields@,
                        fields@.len(),
                        old(serializer)@.style,
                        old(serializer)@.depth() + 1,
                    ),
                    old(serializer)@.style,
                    old(serializer)@.depth(),
                ),
            ),
        ),
    decreases fields, 1nat,
{
    let ghost before = serializer@;
    serializer.serialize_struct_variant(tag)?;
    serialize_fields(serializer, fields)?;
    serializer.end_variant()?;
    proof {
        assert(serializer@.markers =~= before.markers);
        assert(serializer@.text =~= before.text + variant_text(
            tag@,
            table_text(
                fields_text(fields@, fields@.len(), before.style, before.depth() + 1),
                before.style,
                before.depth(),
            ),
        ));
    }
    Ok(())
}

/// Writes the elements of a table that was just opened.
fn serialize_elements(serializer: &mut Serializer, items: &Vec<Value>) -> (r: Result<()>)
    requires
        old(serializer)@.at_table_start(),
    ensures
        r is Ok,
        final(serializer)@ == (SerializerView {
            markers: old(serializer)@.markers.update(
                old(serializer)@.markers.len() - 1,
                items@.len() == 0,
            ),
            text: old(serializer)@.text + elements_text(
                items@,
                items@.len(),
                old(serializer)@.style,
                old(serializer)@.depth(),
            ),
            ..old(serializer)@
        }),
    decreases items, 0nat,
{
    let ghost before = serializer@;
    let mut i: usize = 0;
    proof {
        assert(before.markers.update(before.markers.len() - 1, true) =~= before.markers);
        assert(before.text =~= before.text + elements_text(items@, 0, before.style, before.depth()));
    }
    while i < items.len()
        invariant
            i <= items.len(),
            before.markers.len() > 0,
            serializer@ == (SerializerView {
                markers: before.markers.update(before.markers.len() - 1, i == 0),
                text: before.text + elements_text(items@, i as nat, before.style, before.depth()),
                ..before
            }),
        decreases items.len() - i,
    {
        let ghost so_far = elements_text(items@, i as nat, before.style, before.depth());
        serializer.serialize_element(&items[i])?;
        i += 1;
        proof {
            let line = element_line(
                i == 1,
                encoded(items@[i - 1], before.style, before.depth()),
                before.style,
                before.depth(),
            );
            assert(serializer@.markers =~= before.markers.update(before.markers.len() - 1, false));
            assert(elements_text(items@, i as nat, before.style, before.depth()) == so_far + line);
            assert(serializer@.text =~= before.text + (so_far + line));
        }
    }
    Ok(())
}

/// Writes the entries of a map that was just opened.
fn serialize_entries(serializer: &mut Serializer, entries: &Vec<(Value, Value)>) -> (r: Result<()>)
    requires
        old(serializer)@.at_table_start(),
    ensures
        r is Ok,
        final(serializer)@ == (SerializerView {
            markers: old(serializer)@.markers.update(
                old(serializer)@.markers.len() - 1,
                entries@.len() == 0,
            ),
            text: old(serializer)@.text + entries_text(
                entries@,
                entries@.len(),
                old(serializer)@.style,
                old(serializer)@.depth(),
            ),
            ..old(serializer)@
        }),
    decreases entries, 0nat,
{
    let ghost before = serializer@;
    let mut i: usize = 0;
    proof {
        assert(before.markers.update(before.markers.len() - 1, true) =~= before.markers);
        assert(before.text =~= before.text + entries_text(
            entries@,
            0,
            before.style,
            before.depth(),
        ));
    }
    while i < entries.len()
        invariant
            i <= entries.len(),
            before.markers.len() > 0,
            serializer@ == (SerializerView {
                markers: before.markers.update(before.markers.len() - 1, i == 0),
                text: before.text + entries_text(
                    entries@,
                    i as nat,
                    before.style,
                    before.depth(),
                ),
                ..before
            }),
        decreases entries.len() - i,
    {
        let ghost so_far = entries_text(entries@, i as nat, before.style, before.depth());
        let ghost first = serializer@.at_table_start();
        serializer.serialize_key(&entries[i].0)?;
        let ghost keyed = serializer@;
        serializer.serialize_value(&entries[i].1)?;
        i += 1;
        proof {
            assert(first == (i == 1));
            assert(keyed.text == before.text + so_far + (element_lead(
                first,
                before.style,
                before.depth(),
            ) + key_text(entries@[i - 1].0, before.style, before.depth())));
            let line = entry_line(
                i == 1,
                key_text(entries@[i - 1].0, before.style, before.depth()),
                encoded(entries@[i - 1].1, before.style, before.depth()),
                before.style,
                before.depth(),
            );
            assert(serializer@.markers =~= before.markers.update(before.markers.len() - 1, false));
            assert(entries_text(entries@, i as nat, before.style, before.depth()) == so_far + line);
            assert(serializer@.text =~= before.text + (so_far + line));
        }
    }
    Ok(())
}

/// Writes the fields of a struct that was just opened.
fn serialize_fields(serializer: &mut Serializer, fields: &Vec<(String, Value)>) -> (r: Result<()>)
    requires
        old(serializer)@.at_table_start(),
    ensures
        r is Ok,
        final(serializer)@ == (SerializerView {
            markers: old(serializer)@.markers.update(
                old(serializer)@.markers.len() - 1,
                fields@.len() == 0,
            ),
            text: old(serializer)@.text + fields_text(
                fields@,
                fields@.len(),
                old(serializer)@.style,
                old(serializer)@.depth(),
            ),
            ..old(serializer)@
        }),
    decreases fields, 0nat,
{
    let ghost before = serializer@;
    let mut i: usize = 0;
    proof {
        assert(before.markers.update(before.markers.len() - 1, true) =~= before.markers);
        assert(before.text =~= before.text + fields_text(fields@, 0, before.style, before.depth()));
    }
    while i < fields.len()
        invariant
            i <= fields.len(),
            before.markers.len() > 0,
            serializer@ == (SerializerView {
                markers: before.markers.update(before.markers.len() - 1, i == 0),
                text: before.text + fields_text(fields@, i as nat, before.style, before.depth()),
                ..before
            }),
        decreases fields.len() - i,
    {
        let ghost so_far = fields_text(fields@, i as nat, before.style, before.depth());
        serializer.serialize_field(fields[i].0.as_str(), &fields[i].1)?;
        i += 1;
        proof {
            let line = field_line(
                i == 1,
                fields@[i - 1].0@,
                encoded(fields@[i - 1].1, before.style, before.depth()),
                before.style,
                before.depth(),
            );
            assert(serializer@.markers =~= before.markers.update(before.markers.len() - 1, false));
            assert(fields_text(fields@, i as nat, before.style, before.depth()) == so_far + line);
            assert(serializer@.text =~= before.text + (so_far + line));
        }
    }
    Ok(())
}

fn is_identifier_char(chr: char) -> (r: bool)
    ensures
        r == is_identifier_char_spec(chr),
{
    (chr >= 'a' && chr <= 'z') || (chr >= 'A' && chr <= 'Z') || (chr >= '0' && chr <= '9') || chr
        == '_'
}

/// Whether `name` is one of the words that Lua reserves.
fn is_reserved(name: &str) -> (r: bool)
    ensures
        r == is_reserved_word(name@),
{
    same_text(name, "and") || same_text(name, "break") || same_text(name, "do") || same_text(
        name,
        "else",
    ) || same_text(name, "elseif") || same_text(name, "end") || same_text(name, "false")
        || same_text(name, "for") || same_text(name, "function") || same_text(name, "goto")
        || same_text(name, "if") || same_text(name, "in") || same_text(name, "local")
        || same_text(name, "nil") || same_text(name, "not") || same_text(name, "or") || same_text(
        name,
        "repeat",
    ) || same_text(name, "return") || same_text(name, "then") || same_text(name, "true")
        || same_text(name, "until") || same_text(name, "while")
}

/// Whether `name` can stand as a bare key: a Lua identifier that is not a
/// reserved word.
pub fn is_identifier(name: &str) -> (r: bool)
    ensures
        r == is_identifier_spec(name@),
{
    if name.is_empty() {
        return false;
    }
    for chr in it: name.chars()
        invariant
            it.seq() == name@,
            forall|j: int| 0 <= j < it.index() ==> is_identifier_char_spec(#[trigger] name@[j]),
    {
        if !is_identifier_char(chr) {
            return false;
        }
    }

    let first = name.get_char(0);
    if first >= '0' && first <= '9' {
        return false
    } else {
        !is_reserved(name)
    }
}

} // verus!

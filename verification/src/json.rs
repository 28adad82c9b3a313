//! A small JSON document model with a verified writer and parser.
//!
//! The wire records of the API are plain maps of strings, 64-bit integers,
//! booleans, arrays and nested objects, so the document model carries
//! exactly those shapes. Numbers are decimal 64-bit integers; the API never
//! produces fractional numbers, and this crate holds no floating point.

use vstd::prelude::*;
use vstd::string::*;
use crate::text::{
    bool_lit, dec_of, dec_of_int, digit_char, hex_char, push_char, i64_to_dec,
};

verus! {

/// The mathematical JSON document: the view of [`JsonValue`].
pub enum Json {
    Null,
    Bool(bool),
    Int(int),
    Str(Seq<char>),
    Arr(Seq<Json>),
    Obj(Seq<(Seq<char>, Json)>),
}

/// An executable JSON document.
#[derive(Debug, PartialEq, Eq)]
pub enum JsonValue {
    Null,
    Bool(bool),
    Int(i64),
    Str(String),
    Arr(Vec<JsonValue>),
    Obj(Vec<(String, JsonValue)>),
}

/// The document a [`JsonValue`] stands for.
pub open spec fn jmodel(v: JsonValue) -> Json
    decreases v,
{
    match v {
        JsonValue::Null => Json::Null,
        JsonValue::Bool(b) => Json::Bool(b),
        JsonValue::Int(n) => Json::Int(n as int),
        JsonValue::Str(s) => Json::Str(s@),
        JsonValue::Arr(items) => Json::Arr(jmodel_list(items@)),
        JsonValue::Obj(entries) => Json::Obj(jmodel_entries(entries@)),
    }
}

pub open spec fn jmodel_list(s: Seq<JsonValue>) -> Seq<Json>
    decreases s,
{
    if s.len() == 0 {
        Seq::empty()
    } else {
        seq![jmodel(s[0])] + jmodel_list(s.subrange(1, s.len() as int))
    }
}

pub open spec fn jmodel_entries(s: Seq<(String, JsonValue)>) -> Seq<(Seq<char>, Json)>
    decreases s,
{
    if s.len() == 0 {
        Seq::empty()
    } else {
        seq![(s[0].0@, jmodel(s[0].1))] + jmodel_entries(s.subrange(1, s.len() as int))
    }
}

impl View for JsonValue {
    type V = Json;

    open spec fn view(&self) -> Json {
        jmodel(*self)
    }
}

pub broadcast proof fn lemma_jmodel_list_len(s: Seq<JsonValue>)
    ensures
        (#[trigger] jmodel_list(s)).len() == s.len(),
    decreases s,
{
    if s.len() > 0 {
        lemma_jmodel_list_len(s.subrange(1, s.len() as int));
    }
}

pub broadcast proof fn lemma_jmodel_list_index(s: Seq<JsonValue>, i: int)
    requires
        0 <= i < s.len(),
    ensures
        #[trigger] jmodel_list(s)[i] == jmodel(s[i]),
    decreases s,
{
    lemma_jmodel_list_len(s);
    if i > 0 {
        lemma_jmodel_list_index(s.subrange(1, s.len() as int), i - 1);
    }
}

pub broadcast proof fn lemma_jmodel_entries_len(s: Seq<(String, JsonValue)>)
    ensures
        (#[trigger] jmodel_entries(s)).len() == s.len(),
    decreases s,
{
    if s.len() > 0 {
        lemma_jmodel_entries_len(s.subrange(1, s.len() as int));
    }
}

pub broadcast proof fn lemma_jmodel_entries_index(s: Seq<(String, JsonValue)>, i: int)
    requires
        0 <= i < s.len(),
    ensures
        #[trigger] jmodel_entries(s)[i] == (s[i].0@, jmodel(s[i].1)),
    decreases s,
{
    lemma_jmodel_entries_len(s);
    if i > 0 {
        lemma_jmodel_entries_index(s.subrange(1, s.len() as int), i - 1);
    }
}

/// The escape sequence the writer emits for one character inside a JSON
/// string: quote and backslash are escaped, control characters take their
/// short escapes or a `\u00XX` form, everything else passes through.
pub open spec fn esc_char(c: char) -> Seq<char> {
    if c == '"' {
        seq!['\\', '"']
    } else if c == '\\' {
        seq!['\\', '\\']
    } else if c == '\n' {
        seq!['\\', 'n']
    } else if c == '\t' {
        seq!['\\', 't']
    } else if c == '\r' {
        seq!['\\', 'r']
    } else if (c as int) < 32 {
        seq!['\\', 'u', '0', '0', hex_char((c as int / 16) as nat), hex_char((c as int % 16) as nat)]
    } else {
        seq![c]
    }
}

/// The escaped body of a JSON string.
pub open spec fn esc(s: Seq<char>) -> Seq<char>
    decreases s.len(),
{
    if s.len() == 0 {
        Seq::empty()
    } else {
        esc_char(s[0]) + esc(s.subrange(1, s.len() as int))
    }
}

proof fn lemma_esc_snoc(s: Seq<char>, c: char)
    ensures
        esc(s.push(c)) == esc(s) + esc_char(c),
    decreases s.len(),
{
    let whole = s.push(c);
    if s.len() == 0 {
        assert(whole.subrange(1, whole.len() as int) =~= Seq::<char>::empty());
        assert(whole[0] == c);
        assert(esc(whole) == esc_char(c) + esc(Seq::<char>::empty()));
        assert(esc(whole) =~= esc(s) + esc_char(c));
    } else {
        assert(whole.subrange(1, whole.len() as int) =~= s.subrange(1, s.len() as int).push(c));
        lemma_esc_snoc(s.subrange(1, s.len() as int), c);
        assert(esc(whole) =~= esc(s) + esc_char(c));
    }
}

/// The serialized text of a document: compact JSON, fields in the order
/// the document holds them.
pub open spec fn ser(g: Json) -> Seq<char>
    decreases g,
{
    match g {
        Json::Null => "null"@,
        Json::Bool(b) => bool_lit(b),
        Json::Int(n) => dec_of_int(n),
        Json::Str(s) => seq!['"'] + esc(s) + seq!['"'],
        Json::Arr(items) => seq!['['] + ser_list(items) + seq![']'],
        Json::Obj(entries) => seq!['{'] + ser_entries(entries) + seq!['}'],
    }
}

/// Comma-separated serialization of array elements.
pub open spec fn ser_list(items: Seq<Json>) -> Seq<char>
    decreases items,
{
    if items.len() == 0 {
        Seq::empty()
    } else if items.len() == 1 {
        ser(items[0])
    } else {
        ser(items[0]) + seq![','] + ser_list(items.subrange(1, items.len() as int))
    }
}

/// Comma-separated serialization of object members.
pub open spec fn ser_entries(entries: Seq<(Seq<char>, Json)>) -> Seq<char>
    decreases entries,
{
    if entries.len() == 0 {
        Seq::empty()
    } else if entries.len() == 1 {
        ser_entry(entries[0])
    } else {
        ser_entry(entries[0]) + seq![','] + ser_entries(entries.subrange(1, entries.len() as int))
    }
}

pub open spec fn ser_entry(entry: (Seq<char>, Json)) -> Seq<char>
    decreases entry,
{
    seq!['"'] + esc(entry.0) + seq!['"', ':'] + ser(entry.1)
}

fn write_escaped(s: &str, out: &mut String)
    ensures
        final(out)@ == old(out)@ + esc(s@),
{
    let len = s.unicode_len();
    let mut i: usize = 0;
    while i < len
        invariant
            len == s@.len(),
            i <= len,
            out@ == old(out)@ + esc(s@.subrange(0, i as int)),
        decreases len - i,
    {
        let c = s.get_char(i);
        let code = c as u32;
        if c == '"' {
            push_char(out, '\\');
            push_char(out, '"');
        } else if c == '\\' {
            push_char(out, '\\');
            push_char(out, '\\');
        } else if c == '\n' {
            push_char(out, '\\');
            push_char(out, 'n');
        } else if c == '\t' {
            push_char(out, '\\');
            push_char(out, 't');
        } else if c == '\r' {
            push_char(out, '\\');
            push_char(out, 'r');
        } else if code < 32 {
            push_char(out, '\\');
            push_char(out, 'u');
            push_char(out, '0');
            push_char(out, '0');
            push_char(out, crate::text::hex_of_u32(code / 16));
            push_char(out, crate::text::hex_of_u32(code % 16));
        } else {
            push_char(out, c);
        }
        proof {
            let prefix = s@.subrange(0, i as int);
            assert(s@.subrange(0, i + 1 as int) =~= prefix.push(s@[i as int]));
            lemma_esc_snoc(prefix, s@[i as int]);
            assert(out@ =~= old(out)@ + esc(prefix) + esc_char(s@[i as int]));
            assert(out@ =~= old(out)@ + esc(s@.subrange(0, i + 1 as int)));
        }
        i = i + 1;
    }
    proof {
        assert(s@.subrange(0, len as int) =~= s@);
    }
}

proof fn lemma_ser_list_snoc(items: Seq<Json>, g: Json)
    ensures
        items.len() == 0 ==> ser_list(items.push(g)) == ser(g),
        items.len() > 0 ==> ser_list(items.push(g)) == ser_list(items) + seq![','] + ser(g),
    decreases items,
{
    let whole = items.push(g);
    if items.len() == 0 {
        assert(whole[0] == g);
        assert(ser_list(whole) == ser(g));
    } else {
        let tail = items.subrange(1, items.len() as int);
        assert(whole.subrange(1, whole.len() as int) =~= tail.push(g));
        lemma_ser_list_snoc(tail, g);
        if items.len() == 1 {
            assert(tail.len() == 0);
            assert(ser_list(whole) == ser(whole[0]) + seq![','] + ser_list(tail.push(g)));
            assert(ser_list(whole) =~= ser_list(items) + seq![','] + ser(g));
        } else {
            assert(ser_list(whole) =~= ser_list(items) + seq![','] + ser(g));
        }
    }
}

proof fn lemma_ser_entries_snoc(entries: Seq<(Seq<char>, Json)>, e: (Seq<char>, Json))
    ensures
        entries.len() == 0 ==> ser_entries(entries.push(e)) == ser_entry(e),
        entries.len() > 0 ==> ser_entries(entries.push(e)) == ser_entries(entries) + seq![',']
            + ser_entry(e),
    decreases entries,
{
    let whole = entries.push(e);
    if entries.len() == 0 {
        assert(whole[0] == e);
        assert(ser_entries(whole) == ser_entry(e));
    } else {
        let tail = entries.subrange(1, entries.len() as int);
        assert(whole.subrange(1, whole.len() as int) =~= tail.push(e));
        lemma_ser_entries_snoc(tail, e);
        if entries.len() == 1 {
            assert(tail.len() == 0);
            assert(ser_entries(whole) == ser_entry(whole[0]) + seq![','] + ser_entries(
                tail.push(e),
            ));
            assert(ser_entries(whole) =~= ser_entries(entries) + seq![','] + ser_entry(e));
        } else {
            assert(ser_entries(whole) =~= ser_entries(entries) + seq![','] + ser_entry(e));
        }
    }
}

fn write_json(v: &JsonValue, out: &mut String)
    ensures
        final(out)@ == old(out)@ + ser(jmodel(*v)),
    decreases *v,
{
    match v {
        JsonValue::Null => {
            out.append("null");
        },
        JsonValue::Bool(b) => {
            if *b {
                out.append("true");
            } else {
                out.append("false");
            }
        },
        JsonValue::Int(n) => {
            let digits = i64_to_dec(*n);
            out.append(digits.as_str());
        },
        JsonValue::Str(s) => {
            push_char(out, '"');
            write_escaped(s.as_str(), out);
            push_char(out, '"');
            proof {
                assert(out@ =~= old(out)@ + (seq!['"'] + esc(s@) + seq!['"']));
            }
        },
        JsonValue::Arr(items) => {
            push_char(out, '[');
            let count = items.len();
            let mut i: usize = 0;
            while i < count
                invariant
                    *v == JsonValue::Arr(*items),
                    count == items@.len(),
                    i <= count,
                    out@ == old(out)@ + seq!['['] + ser_list(jmodel_list(items@.subrange(0, i as int))),
                decreases count - i,
            {
                if i > 0 {
                    push_char(out, ',');
                }
                let ghost done = items@.subrange(0, i as int);
                proof {
                    assert(*items == v->Arr_0);
                    assert(decreases_to!(*v => v->Arr_0));
                    assert(decreases_to!(*items => items@));
                    assert(decreases_to!(items@ => items@[i as int]));
                }
                write_json(&items[i], out);
                proof {
                    broadcast use lemma_jmodel_list_len, lemma_jmodel_list_index;

                    assert(items@.subrange(0, i + 1 as int) =~= done.push(items@[i as int]));
                    lemma_jmodel_snoc_list(done, items@[i as int]);
                    lemma_ser_list_snoc(jmodel_list(done), jmodel(items@[i as int]));
                    assert(out@ =~= old(out)@ + seq!['['] + ser_list(
                        jmodel_list(items@.subrange(0, i + 1 as int)),
                    ));
                }
                i = i + 1;
            }
            push_char(out, ']');
            proof {
                assert(items@.subrange(0, count as int) =~= items@);
                assert(out@ =~= old(out)@ + ser(jmodel(*v)));
            }
        },
        JsonValue::Obj(entries) => {
            push_char(out, '{');
            let count = entries.len();
            let mut i: usize = 0;
            while i < count
                invariant
                    *v == JsonValue::Obj(*entries),
                    count == entries@.len(),
                    i <= count,
                    out@ == old(out)@ + seq!['{'] + ser_entries(
                        jmodel_entries(entries@.subrange(0, i as int)),
                    ),
                decreases count - i,
            {
                if i > 0 {
                    push_char(out, ',');
                }
                let ghost done = entries@.subrange(0, i as int);
                push_char(out, '"');
                write_escaped(entries[i].0.as_str(), out);
                push_char(out, '"');
                push_char(out, ':');
                proof {
                    assert(*entries == v->Obj_0);
                    assert(decreases_to!(*v => v->Obj_0));
                    assert(decreases_to!(*entries => entries@));
                    assert(decreases_to!(entries@ => entries@[i as int]));
                    assert(decreases_to!(entries@[i as int] => entries@[i as int].1));
                }
                write_json(&entries[i].1, out);
                proof {
                    broadcast use lemma_jmodel_entries_len, lemma_jmodel_entries_index;

                    assert(entries@.subrange(0, i + 1 as int) =~= done.push(entries@[i as int]));
                    lemma_jmodel_snoc_entries(done, entries@[i as int]);
                    lemma_ser_entries_snoc(
                        jmodel_entries(done),
                        (entries@[i as int].0@, jmodel(entries@[i as int].1)),
                    );
                    assert(out@ =~= old(out)@ + seq!['{'] + ser_entries(
                        jmodel_entries(entries@.subrange(0, i + 1 as int)),
                    ));
                }
                i = i + 1;
            }
            push_char(out, '}');
            proof {
                assert(entries@.subrange(0, count as int) =~= entries@);
                assert(out@ =~= old(out)@ + ser(jmodel(*v)));
            }
        },
    }
}

proof fn lemma_jmodel_snoc_list(s: Seq<JsonValue>, v: JsonValue)
    ensures
        jmodel_list(s.push(v)) == jmodel_list(s).push(jmodel(v)),
    decreases s,
{
    broadcast use lemma_jmodel_list_len, lemma_jmodel_list_index;

    assert forall|i: int| 0 <= i < s.len() + 1 implies jmodel_list(s.push(v))[i] == jmodel_list(
        s,
    ).push(jmodel(v))[i] by {
        if i < s.len() {
            assert(s.push(v)[i] == s[i]);
        } else {
            assert(s.push(v)[i] == v);
        }
    }
    assert(jmodel_list(s.push(v)) =~= jmodel_list(s).push(jmodel(v)));
}

proof fn lemma_jmodel_snoc_entries(s: Seq<(String, JsonValue)>, e: (String, JsonValue))
    ensures
        jmodel_entries(s.push(e)) == jmodel_entries(s).push((e.0@, jmodel(e.1))),
    decreases s,
{
    broadcast use lemma_jmodel_entries_len, lemma_jmodel_entries_index;

    assert forall|i: int| 0 <= i < s.len() + 1 implies jmodel_entries(s.push(e))[i]
        == jmodel_entries(s).push((e.0@, jmodel(e.1)))[i] by {
        if i < s.len() {
            assert(s.push(e)[i] == s[i]);
        } else {
            assert(s.push(e)[i] == e);
        }
    }
    assert(jmodel_entries(s.push(e)) =~= jmodel_entries(s).push((e.0@, jmodel(e.1))));
}

/// Serialize a document to compact JSON text.
pub fn json_to_string(v: &JsonValue) -> (r: String)
    ensures
        r@ == ser(v@),
{
    let mut out = String::new();
    write_json(v, &mut out);
    out
}

/// Whitespace between JSON tokens.
pub open spec fn is_json_ws(c: char) -> bool {
    c == ' ' || c == '\t' || c == '\n' || c == '\r'
}

/// The first index at or after `i` holding a non-whitespace character.
pub open spec fn sp_ws(s: Seq<char>, i: int) -> int
    decreases s.len() - i,
{
    if 0 <= i < s.len() && is_json_ws(s[i]) {
        sp_ws(s, i + 1)
    } else {
        i
    }
}

pub broadcast proof fn lemma_ws_bounds(s: Seq<char>, i: int)
    requires
        0 <= i <= s.len(),
    ensures
        i <= #[trigger] sp_ws(s, i) <= s.len(),
    decreases s.len() - i,
{
    if i < s.len() && is_json_ws(s[i]) {
        lemma_ws_bounds(s, i + 1);
    }
}

/// A decimal digit.
pub open spec fn is_dec_digit(c: char) -> bool {
    '0' <= c && c <= '9'
}

/// The value of a decimal digit.
pub open spec fn dec_val(c: char) -> int {
    c as int - 48
}

/// A hexadecimal digit.
pub open spec fn is_hex_digit_char(c: char) -> bool {
    is_dec_digit(c) || ('a' <= c && c <= 'f') || ('A' <= c && c <= 'F')
}

/// The value of a hexadecimal digit.
pub open spec fn hex_val(c: char) -> int {
    if is_dec_digit(c) {
        c as int - 48
    } else if 'a' <= c && c <= 'f' {
        c as int - 87
    } else {
        c as int - 55
    }
}

/// The short escapes the parser understands.
pub open spec fn is_simple_escape(c: char) -> bool {
    c == '"' || c == '\\' || c == '/' || c == 'n' || c == 't' || c == 'r' || c == 'b' || c == 'f'
}

/// The character a short escape stands for.
pub open spec fn unescaped(c: char) -> char {
    if c == 'n' {
        '\n'
    } else if c == 't' {
        '\t'
    } else if c == 'r' {
        '\r'
    } else if c == 'b' {
        '\u{8}'
    } else if c == 'f' {
        '\u{c}'
    } else {
        c
    }
}

/// Parse the body of a JSON string starting just after the opening quote:
/// the decoded text and the index just past the closing quote. Unicode
/// escapes are understood in their `\u00XX` form, which is the only form
/// the writer emits; others fail the parse.
pub open spec fn sp_str_body(s: Seq<char>, i: int) -> Option<(Seq<char>, int)>
    decreases s.len() - i,
{
    if i < 0 || i >= s.len() {
        None
    } else if s[i] == '"' {
        Some((Seq::empty(), i + 1))
    } else if s[i] == '\\' {
        if i + 1 >= s.len() {
            None
        } else if is_simple_escape(s[i + 1]) {
            match sp_str_body(s, i + 2) {
                Some((t, j)) => Some((seq![unescaped(s[i + 1])] + t, j)),
                None => None,
            }
        } else if s[i + 1] == 'u' {
            if i + 6 <= s.len() && s[i + 2] == '0' && s[i + 3] == '0' && is_hex_digit_char(s[i + 4])
                && is_hex_digit_char(s[i + 5]) {
                match sp_str_body(s, i + 6) {
                    Some(
                        (t, j),
                    ) => Some(
                        (seq![((hex_val(s[i + 4]) * 16 + hex_val(s[i + 5])) as u8) as char] + t, j),
                    ),
                    None => None,
                }
            } else {
                None
            }
        } else {
            None
        }
    } else {
        match sp_str_body(s, i + 1) {
            Some((t, j)) => Some((seq![s[i]] + t, j)),
            None => None,
        }
    }
}

pub proof fn lemma_str_body_bounds(s: Seq<char>, i: int)
    requires
        sp_str_body(s, i) is Some,
    ensures
        i < (sp_str_body(s, i)->0).1 <= s.len(),
    decreases s.len() - i,
{
    if s[i] == '"' {
    } else if s[i] == '\\' {
        if is_simple_escape(s[i + 1]) {
            lemma_str_body_bounds(s, i + 2);
        } else {
            lemma_str_body_bounds(s, i + 6);
        }
    } else {
        lemma_str_body_bounds(s, i + 1);
    }
}

/// The first index at or after `i` holding a non-digit.
pub open spec fn digits_end(s: Seq<char>, i: int) -> int
    decreases s.len() - i,
{
    if 0 <= i < s.len() && is_dec_digit(s[i]) {
        digits_end(s, i + 1)
    } else {
        i
    }
}

pub broadcast proof fn lemma_digits_end_bounds(s: Seq<char>, i: int)
    requires
        0 <= i <= s.len(),
    ensures
        i <= #[trigger] digits_end(s, i) <= s.len(),
    decreases s.len() - i,
{
    if i < s.len() && is_dec_digit(s[i]) {
        lemma_digits_end_bounds(s, i + 1);
    }
}

/// The value of the digit run `s[i..j)`, most significant digit first.
pub open spec fn digits_val(s: Seq<char>, i: int, j: int) -> int
    decreases j - i,
{
    if i >= j {
        0
    } else {
        digits_val(s, i, j - 1) * 10 + dec_val(s[j - 1])
    }
}

/// Parse a decimal integer at `i`: optional minus sign, then digits; the
/// value must fit a 64-bit signed integer. Fractions and exponents are
/// not JSON this API produces and fail the parse.
pub open spec fn sp_number(s: Seq<char>, i: int) -> Option<(int, int)> {
    if i < 0 || i >= s.len() {
        None
    } else {
        let neg = s[i] == '-';
        let d0 = if neg {
            i + 1
        } else {
            i
        };
        let dend = digits_end(s, d0);
        if dend == d0 {
            None
        } else {
            let magnitude = digits_val(s, d0, dend);
            let v = if neg {
                -magnitude
            } else {
                magnitude
            };
            if -0x8000_0000_0000_0000 <= v < 0x8000_0000_0000_0000 {
                Some((v, dend))
            } else {
                None
            }
        }
    }
}

/// Does the literal `lit` stand at `i`?
pub open spec fn at_lit(s: Seq<char>, i: int, lit: Seq<char>) -> bool {
    0 <= i && i + lit.len() <= s.len() && s.subrange(i, i + lit.len() as int) == lit
}

/// Parse one JSON value at `i` (leading whitespace already skipped):
/// the document and the index just past it.
pub open spec fn sp_value(s: Seq<char>, i: int) -> Option<(Json, int)>
    decreases s.len() - i, 0int,
    via sp_value_decreases
{
    if i < 0 || i >= s.len() {
        None
    } else if s[i] == 'n' {
        if at_lit(s, i, "null"@) {
            Some((Json::Null, i + 4))
        } else {
            None
        }
    } else if s[i] == 't' {
        if at_lit(s, i, "true"@) {
            Some((Json::Bool(true), i + 4))
        } else {
            None
        }
    } else if s[i] == 'f' {
        if at_lit(s, i, "false"@) {
            Some((Json::Bool(false), i + 5))
        } else {
            None
        }
    } else if s[i] == '"' {
        match sp_str_body(s, i + 1) {
            Some((t, j)) => Some((Json::Str(t), j)),
            None => None,
        }
    } else if s[i] == '[' {
        let j = sp_ws(s, i + 1);
        if j < s.len() && s[j] == ']' {
            Some((Json::Arr(Seq::empty()), j + 1))
        } else {
            match sp_elements(s, j) {
                Some((items, k)) => Some((Json::Arr(items), k)),
                None => None,
            }
        }
    } else if s[i] == '{' {
        let j = sp_ws(s, i + 1);
        if j < s.len() && s[j] == '}' {
            Some((Json::Obj(Seq::empty()), j + 1))
        } else {
            match sp_members(s, j) {
                Some((entries, k)) => Some((Json::Obj(entries), k)),
                None => None,
            }
        }
    } else if s[i] == '-' || is_dec_digit(s[i]) {
        match sp_number(s, i) {
            Some((v, j)) => Some((Json::Int(v), j)),
            None => None,
        }
    } else {
        None
    }
}

#[via_fn]
proof fn sp_value_decreases(s: Seq<char>, i: int) {
    broadcast use lemma_ws_bounds;

}

/// Parse the elements of a non-empty array, the first value starting at
/// `i`: the elements and the index just past the closing bracket.
pub open spec fn sp_elements(s: Seq<char>, i: int) -> Option<(Seq<Json>, int)>
    decreases s.len() - i, 1int,
    via sp_elements_decreases
{
    match sp_value(s, i) {
        None => None,
        Some((v, j)) => if !(i < j <= s.len()) {
            None
        } else {
            let k = sp_ws(s, j);
            if k < s.len() && s[k] == ',' {
                let m = sp_ws(s, k + 1);
                match sp_elements(s, m) {
                    Some((rest, e)) => Some((seq![v] + rest, e)),
                    None => None,
                }
            } else if k < s.len() && s[k] == ']' {
                Some((seq![v], k + 1))
            } else {
                None
            }
        },
    }
}

#[via_fn]
proof fn sp_elements_decreases(s: Seq<char>, i: int) {
    broadcast use lemma_ws_bounds;

}

/// Parse the members of a non-empty object, the first key starting at
/// `i`: the entries and the index just past the closing brace.
pub open spec fn sp_members(s: Seq<char>, i: int) -> Option<(Seq<(Seq<char>, Json)>, int)>
    decreases s.len() - i, 1int,
    via sp_members_decreases
{
    if !(0 <= i && i < s.len() && s[i] == '"') {
        None
    } else {
        match sp_str_body(s, i + 1) {
            None => None,
            Some((key, j)) => if !(i < j <= s.len()) {
                None
            } else {
                let c = sp_ws(s, j);
                if c < s.len() && s[c] == ':' {
                    let vstart = sp_ws(s, c + 1);
                    match sp_value(s, vstart) {
                        None => None,
                        Some((v, e)) => if !(vstart < e <= s.len()) {
                            None
                        } else {
                            let t = sp_ws(s, e);
                            if t < s.len() && s[t] == ',' {
                                let n = sp_ws(s, t + 1);
                                match sp_members(s, n) {
                                    Some((rest, z)) => Some((seq![(key, v)] + rest, z)),
                                    None => None,
                                }
                            } else if t < s.len() && s[t] == '}' {
                                Some((seq![(key, v)], t + 1))
                            } else {
                                None
                            }
                        },
                    }
                } else {
                    None
                }
            },
        }
    }
}

#[via_fn]
proof fn sp_members_decreases(s: Seq<char>, i: int) {
    broadcast use lemma_ws_bounds;

    if 0 <= i && i < s.len() && s[i] == '"' {
        if sp_str_body(s, i + 1) is Some {
            lemma_str_body_bounds(s, i + 1);
        }
    }
}

/// Parse a whole JSON document: whitespace, one value, whitespace, end of
/// input.
pub open spec fn sp_document(s: Seq<char>) -> Option<Json> {
    let i = sp_ws(s, 0);
    match sp_value(s, i) {
        None => None,
        Some((v, j)) => if sp_ws(s, j) == s.len() {
            Some(v)
        } else {
            None
        },
    }
}

/// Documents the parser can hand back: integers within the 64-bit range.
pub open spec fn wf_json(g: Json) -> bool
    decreases g,
{
    match g {
        Json::Null => true,
        Json::Bool(_) => true,
        Json::Int(n) => -0x8000_0000_0000_0000 <= n < 0x8000_0000_0000_0000,
        Json::Str(_) => true,
        Json::Arr(items) => wf_list(items),
        Json::Obj(entries) => wf_entries(entries),
    }
}

pub open spec fn wf_list(items: Seq<Json>) -> bool
    decreases items,
{
    if items.len() == 0 {
        true
    } else {
        wf_json(items[0]) && wf_list(items.subrange(1, items.len() as int))
    }
}

pub open spec fn wf_entries(entries: Seq<(Seq<char>, Json)>) -> bool
    decreases entries,
{
    if entries.len() == 0 {
        true
    } else {
        wf_json(entries[0].1) && wf_entries(entries.subrange(1, entries.len() as int))
    }
}

/// Every executable document stands for a well-formed one.
pub proof fn lemma_jmodel_wf(v: JsonValue)
    ensures
        wf_json(jmodel(v)),
    decreases v,
{
    match v {
        JsonValue::Arr(items) => {
            lemma_jmodel_wf_list(items@);
        },
        JsonValue::Obj(entries) => {
            lemma_jmodel_wf_entries(entries@);
        },
        _ => {},
    }
}

proof fn lemma_jmodel_wf_list(items: Seq<JsonValue>)
    ensures
        wf_list(jmodel_list(items)),
    decreases items,
{
    if items.len() > 0 {
        broadcast use lemma_jmodel_list_len;

        lemma_jmodel_wf(items[0]);
        lemma_jmodel_wf_list(items.subrange(1, items.len() as int));
        let m = jmodel_list(items);
        assert(m[0] == jmodel(items[0]));
        assert(m.subrange(1, m.len() as int) =~= jmodel_list(
            items.subrange(1, items.len() as int),
        ));
    }
}

proof fn lemma_jmodel_wf_entries(entries: Seq<(String, JsonValue)>)
    ensures
        wf_entries(jmodel_entries(entries)),
    decreases entries,
{
    if entries.len() > 0 {
        broadcast use lemma_jmodel_entries_len;

        lemma_jmodel_wf(entries[0].1);
        lemma_jmodel_wf_entries(entries.subrange(1, entries.len() as int));
        let m = jmodel_entries(entries);
        assert(m[0] == (entries[0].0@, jmodel(entries[0].1)));
        assert(m.subrange(1, m.len() as int) =~= jmodel_entries(
            entries.subrange(1, entries.len() as int),
        ));
    }
}

proof fn lemma_dec_of_digits(n: nat)
    ensures
        dec_of(n).len() >= 1,
        forall|k: int| 0 <= k < dec_of(n).len() ==> is_dec_digit(#[trigger] dec_of(n)[k]),
    decreases n,
{
    if n >= 10 {
        lemma_dec_of_digits(n / 10);
        assert forall|k: int| 0 <= k < dec_of(n).len() implies is_dec_digit(
            #[trigger] dec_of(n)[k],
        ) by {
            if k < dec_of(n / 10).len() {
                assert(dec_of(n)[k] == dec_of(n / 10)[k]);
            } else {
                assert(dec_of(n)[k] == digit_char(n % 10));
            }
        }
    }
}

proof fn lemma_digits_end_exact(s: Seq<char>, i: int, j: int)
    requires
        0 <= i <= j <= s.len(),
        forall|k: int| i <= k < j ==> is_dec_digit(#[trigger] s[k]),
        j == s.len() || !is_dec_digit(s[j]),
    ensures
        digits_end(s, i) == j,
    decreases j - i,
{
    if i < j {
        lemma_digits_end_exact(s, i + 1, j);
    }
}

proof fn lemma_digits_val_of_dec(s: Seq<char>, i: int, m: nat)
    requires
        0 <= i,
        i + dec_of(m).len() <= s.len(),
        s.subrange(i, i + dec_of(m).len() as int) == dec_of(m),
    ensures
        digits_val(s, i, i + dec_of(m).len() as int) == m,
    decreases m,
{
    let d = dec_of(m);
    let j = i + d.len() as int;
    if m < 10 {
        assert(s[i] == s.subrange(i, i + dec_of(m).len() as int)[0]);
        assert(s[i] == digit_char(m));
        assert(digits_val(s, i, i + 1) == digits_val(s, i, i) * 10 + dec_val(s[i]));
        assert(dec_val(digit_char(m)) == m);
    } else {
        let dh = dec_of(m / 10);
        assert(d == dh.push(digit_char(m % 10)));
        assert(s.subrange(i, i + dh.len() as int) =~= dh) by {
            assert forall|k: int| 0 <= k < dh.len() implies s.subrange(i, i + dh.len() as int)[k]
                == dh[k] by {
                assert(s[i + k] == d[k]);
                assert(d[k] == dh[k]);
            }
        }
        lemma_digits_val_of_dec(s, i, m / 10);
        assert(s[j - 1] == d[d.len() - 1]);
        assert(d[d.len() - 1] == digit_char(m % 10));
        assert(dec_val(digit_char(m % 10)) == m % 10);
        assert(digits_val(s, i, j) == digits_val(s, i, j - 1) * 10 + dec_val(s[j - 1]));
        assert(digits_val(s, i, j) == (m / 10) * 10 + m % 10);
    }
}

proof fn lemma_hex_of_hex_char(d: nat)
    requires
        d < 16,
    ensures
        is_hex_digit_char(hex_char(d)),
        hex_val(hex_char(d)) == d,
{
}

/// The first character of a serialized document: never whitespace and
/// never a delimiter, so the parser's dispatch sees the value itself.
proof fn lemma_ser_first(g: Json)
    requires
        wf_json(g),
    ensures
        ser(g).len() >= 1,
        !is_json_ws(ser(g)[0]),
        ser(g)[0] != ']',
        ser(g)[0] != '}',
        ser(g)[0] != ',',
        ser(g)[0] != ':',
        (g is Int && g->Int_0 >= 0) ==> is_dec_digit(ser(g)[0]),
        (g is Int && g->Int_0 < 0) ==> ser(g)[0] == '-',
        g is Null ==> ser(g)[0] == 'n',
        g is Bool ==> (ser(g)[0] == 't' || ser(g)[0] == 'f'),
        g is Str ==> ser(g)[0] == '"',
        g is Arr ==> ser(g)[0] == '[',
        g is Obj ==> ser(g)[0] == '{',
        g is Int ==> (is_dec_digit(ser(g)[0]) || ser(g)[0] == '-'),
{
    reveal_strlit("null");
    reveal_strlit("true");
    reveal_strlit("false");
    broadcast use vstd::string::group_string_axioms;

    match g {
        Json::Int(n) => {
            if n >= 0 {
                lemma_dec_of_digits(n as nat);
                assert(ser(g)[0] == dec_of(n as nat)[0]);
            } else {
                lemma_dec_of_digits((-n) as nat);
                assert(ser(g) == seq!['-'] + dec_of((-n) as nat));
            }
        },
        _ => {},
    }
}

proof fn lemma_char_nonneg(c: char)
    ensures
        0 <= c as int <= 0x10FFFF,
{
}

proof fn lemma_str_round(s: Seq<char>, i: int, t: Seq<char>)
    requires
        0 <= i,
        i + esc(t).len() + 1 <= s.len(),
        s.subrange(i, i + esc(t).len() as int) == esc(t),
        s[i + esc(t).len()] == '"',
    ensures
        sp_str_body(s, i) == Some((t, i + esc(t).len() + 1)),
    decreases t.len(),
{
    if t.len() == 0 {
        assert(s[i] == '"');
    } else {
        let c = t[0];
        let e = esc_char(c);
        let rest = t.subrange(1, t.len() as int);
        assert(esc(t) == e + esc(rest));
        assert forall|k: int| 0 <= k < esc(t).len() implies s[i + k] == esc(t)[k] by {
            assert(s.subrange(i, i + esc(t).len() as int)[k] == esc(t)[k]);
        }
        let i2 = i + e.len() as int;
        assert(s.subrange(i2, i2 + esc(rest).len() as int) =~= esc(rest)) by {
            assert forall|k: int| 0 <= k < esc(rest).len() implies s.subrange(
                i2,
                i2 + esc(rest).len() as int,
            )[k] == esc(rest)[k] by {
                assert(s[i2 + k] == esc(t)[e.len() + k]);
                assert(esc(t)[e.len() + k] == esc(rest)[k]);
            }
        }
        assert(s[i2 + esc(rest).len()] == '"');
        lemma_str_round(s, i2, rest);
        if c == '"' || c == '\\' || c == '\n' || c == '\t' || c == '\r' {
            assert(s[i + 0] == esc(t)[0]);
            assert(s[i] == '\\');
            assert(s[i + 1] == esc(t)[1]);
            assert(is_simple_escape(s[i + 1]));
            assert(unescaped(s[i + 1]) == c);
            assert(sp_str_body(s, i) == Some((seq![c] + rest, i2 + esc(rest).len() + 1)));
            assert(seq![c] + rest =~= t);
        } else if (c as int) < 32 {
            let hi = (c as int / 16) as nat;
            let lo = (c as int % 16) as nat;
            assert(s[i + 0] == esc(t)[0]);
            assert(s[i] == '\\');
            assert(s[i + 1] == esc(t)[1]);
            assert(s[i + 2] == esc(t)[2]);
            assert(s[i + 3] == esc(t)[3]);
            assert(s[i + 4] == esc(t)[4]);
            assert(s[i + 5] == esc(t)[5]);
            assert(s[i + 1] == 'u');
            assert(!is_simple_escape('u'));
            lemma_char_nonneg(c);
            assert(0 <= (c as int) && (c as int) < 32);
            assert(s[i + 2] == '0' && s[i + 3] == '0');
            lemma_hex_of_hex_char(hi);
            lemma_hex_of_hex_char(lo);
            assert(s[i + 4] == hex_char(hi) && s[i + 5] == hex_char(lo));
            assert(hex_val(s[i + 4]) * 16 + hex_val(s[i + 5]) == c as int);
            assert((((c as int) as u8) as char) == c);
            assert(sp_str_body(s, i) == Some((seq![c] + rest, i2 + esc(rest).len() + 1)));
            assert(seq![c] + rest =~= t);
        } else {
            assert(e == seq![c]);
            assert(s[i + 0] == esc(t)[0]);
            assert(s[i] == c);
            assert(s[i] != '"' && s[i] != '\\');
            assert(sp_str_body(s, i) == Some((seq![c] + rest, i2 + esc(rest).len() + 1)));
            assert(seq![c] + rest =~= t);
        }
    }
}

proof fn lemma_number_round(s: Seq<char>, i: int, n: int)
    requires
        -0x8000_0000_0000_0000 <= n < 0x8000_0000_0000_0000,
        0 <= i,
        i + dec_of_int(n).len() <= s.len(),
        s.subrange(i, i + dec_of_int(n).len() as int) == dec_of_int(n),
        i + dec_of_int(n).len() == s.len() || !is_dec_digit(s[i + dec_of_int(n).len()]),
    ensures
        sp_number(s, i) == Some((n, i + dec_of_int(n).len())),
{
    let d = dec_of_int(n);
    assert forall|k: int| 0 <= k < d.len() implies s[i + k] == d[k] by {
        assert(s.subrange(i, i + d.len() as int)[k] == d[k]);
    }
    if n >= 0 {
        let m = n as nat;
        lemma_dec_of_digits(m);
        assert(s[i + 0] == d[0]);
        assert(s[i] == dec_of(m)[0]);
        assert(is_dec_digit(s[i]));
        assert(s[i] != '-');
        assert forall|k: int| i <= k < i + d.len() implies is_dec_digit(#[trigger] s[k]) by {
            assert(s[k] == d[k - i]);
        }
        lemma_digits_end_exact(s, i, i + d.len() as int);
        lemma_digits_val_of_dec(s, i, m);
    } else {
        let m = (-n) as nat;
        assert(d == seq!['-'] + dec_of(m));
        lemma_dec_of_digits(m);
        assert(s[i + 0] == d[0]);
        assert(s[i] == '-');
        let d0 = i + 1;
        assert(s.subrange(d0, d0 + dec_of(m).len() as int) =~= dec_of(m)) by {
            assert forall|k: int| 0 <= k < dec_of(m).len() implies s.subrange(
                d0,
                d0 + dec_of(m).len() as int,
            )[k] == dec_of(m)[k] by {
                assert(s[d0 + k] == d[1 + k]);
                assert(d[1 + k] == dec_of(m)[k]);
            }
        }
        assert forall|k: int| d0 <= k < d0 + dec_of(m).len() implies is_dec_digit(
            #[trigger] s[k],
        ) by {
            assert(s[k] == d[k - i]);
            assert(d[k - i] == dec_of(m)[k - d0]);
        }
        lemma_digits_end_exact(s, d0, d0 + dec_of(m).len() as int);
        lemma_digits_val_of_dec(s, d0, m);
    }
}

proof fn lemma_ws_stop(s: Seq<char>, i: int)
    requires
        0 <= i,
        i >= s.len() || !is_json_ws(s[i]),
    ensures
        sp_ws(s, i) == i,
{
}

/// Parsing the serialized text of a well-formed document, embedded in a
/// larger text and followed (for integers) by a non-digit, recovers
/// exactly that document and stops exactly at its end.
proof fn lemma_value_round(s: Seq<char>, i: int, g: Json)
    requires
        wf_json(g),
        0 <= i,
        i + ser(g).len() <= s.len(),
        s.subrange(i, i + ser(g).len() as int) == ser(g),
        (g is Int && i + ser(g).len() < s.len()) ==> !is_dec_digit(s[i + ser(g).len()]),
    ensures
        sp_value(s, i) == Some((g, i + ser(g).len())),
    decreases g,
{
    reveal_strlit("null");
    reveal_strlit("true");
    reveal_strlit("false");
    broadcast use vstd::string::group_string_axioms;

    let t = ser(g);
    lemma_ser_first(g);
    assert forall|k: int| 0 <= k < t.len() implies s[i + k] == t[k] by {
        assert(s.subrange(i, i + t.len() as int)[k] == t[k]);
    }
    match g {
        Json::Null => {
            assert(s[i] == 'n');
            assert(at_lit(s, i, "null"@));
        },
        Json::Bool(b) => {
            if b {
                assert(s[i] == 't');
                assert(at_lit(s, i, "true"@));
            } else {
                assert(s[i] == 'f');
                assert(at_lit(s, i, "false"@));
            }
        },
        Json::Int(n) => {
            assert(s[i] != 'n' && s[i] != 't' && s[i] != 'f' && s[i] != '"' && s[i] != '['
                && s[i] != '{');
            lemma_number_round(s, i, n);
        },
        Json::Str(text) => {
            assert(s[i] == '"');
            assert(t == seq!['"'] + esc(text) + seq!['"']);
            assert(s.subrange(i + 1, i + 1 + esc(text).len() as int) =~= esc(text)) by {
                assert forall|k: int| 0 <= k < esc(text).len() implies s.subrange(
                    i + 1,
                    i + 1 + esc(text).len() as int,
                )[k] == esc(text)[k] by {
                    assert(s[i + 1 + k] == t[1 + k]);
                    assert(t[1 + k] == esc(text)[k]);
                }
            }
            assert(s[i + 1 + esc(text).len()] == t[t.len() - 1]);
            assert(t[t.len() - 1] == '"');
            lemma_str_round(s, i + 1, text);
        },
        Json::Arr(items) => {
            assert(s[i] == '[');
            assert(s[i + t.len() - 1] == t[t.len() - 1]);
            assert(t[t.len() - 1] == ']');
            if items.len() == 0 {
                assert(t =~= seq!['[', ']']);
                assert(s[i + 1] == ']');
                lemma_ws_stop(s, i + 1);
                assert(sp_value(s, i) == Some((Json::Arr(Seq::empty()), i + 2)));
                assert(items =~= Seq::<Json>::empty());
            } else {
                let inner = ser_list(items);
                assert(t == seq!['['] + inner + seq![']']);
                assert(s.subrange(i + 1, i + 1 + inner.len() as int) =~= inner) by {
                    assert forall|k: int| 0 <= k < inner.len() implies s.subrange(
                        i + 1,
                        i + 1 + inner.len() as int,
                    )[k] == inner[k] by {
                        assert(s[i + 1 + k] == t[1 + k]);
                        assert(t[1 + k] == inner[k]);
                    }
                }
                assert(s[i + 1 + inner.len()] == ']');
                assert(wf_json(items[0]));
                lemma_ser_first(items[0]);
                assert(inner[0] == ser(items[0])[0]);
                assert(s[i + 1] == inner[0]);
                assert(s[i + 1] != ']');
                lemma_ws_stop(s, i + 1);
                assert(decreases_to!(g => g->Arr_0));
                lemma_list_round(s, i + 1, items);
            }
        },
        Json::Obj(entries) => {
            assert(s[i] == '{');
            assert(s[i + t.len() - 1] == t[t.len() - 1]);
            assert(t[t.len() - 1] == '}');
            if entries.len() == 0 {
                assert(t =~= seq!['{', '}']);
                assert(s[i + 1] == '}');
                lemma_ws_stop(s, i + 1);
                assert(sp_value(s, i) == Some((Json::Obj(Seq::empty()), i + 2)));
                assert(entries =~= Seq::<(Seq<char>, Json)>::empty());
            } else {
                let inner = ser_entries(entries);
                assert(t == seq!['{'] + inner + seq!['}']);
                assert(s.subrange(i + 1, i + 1 + inner.len() as int) =~= inner) by {
                    assert forall|k: int| 0 <= k < inner.len() implies s.subrange(
                        i + 1,
                        i + 1 + inner.len() as int,
                    )[k] == inner[k] by {
                        assert(s[i + 1 + k] == t[1 + k]);
                        assert(t[1 + k] == inner[k]);
                    }
                }
                assert(s[i + 1 + inner.len()] == '}');
                assert(inner[0] == ser_entry(entries[0])[0]);
                assert(ser_entry(entries[0])[0] == '"');
                assert(s[i + 1] == '"');
                lemma_ws_stop(s, i + 1);
                assert(decreases_to!(g => g->Obj_0));
                lemma_members_round(s, i + 1, entries);
            }
        },
    }
}

/// As [`lemma_value_round`], for the elements of a non-empty array whose
/// closing bracket follows the serialized elements.
proof fn lemma_list_round(s: Seq<char>, i: int, items: Seq<Json>)
    requires
        wf_list(items),
        items.len() >= 1,
        0 <= i,
        i + ser_list(items).len() < s.len(),
        s.subrange(i, i + ser_list(items).len() as int) == ser_list(items),
        s[i + ser_list(items).len()] == ']',
    ensures
        sp_elements(s, i) == Some((items, i + ser_list(items).len() + 1)),
    decreases items,
{
    let inner = ser_list(items);
    let first = items[0];
    assert(wf_json(first));
    lemma_ser_first(first);
    assert forall|k: int| 0 <= k < inner.len() implies s[i + k] == inner[k] by {
        assert(s.subrange(i, i + inner.len() as int)[k] == inner[k]);
    }
    if items.len() == 1 {
        assert(inner == ser(first));
        assert(decreases_to!(items => items[0]));
        lemma_value_round(s, i, first);
        let j = i + ser(first).len();
        lemma_ws_stop(s, j);
        assert(s[j] == ']');
        assert(s[j] != ',');
        assert(sp_elements(s, i) == Some((seq![first], j + 1)));
        assert(seq![first] =~= items);
    } else {
        let rest = items.subrange(1, items.len() as int);
        let rest_ser = ser_list(rest);
        assert(inner == ser(first) + seq![','] + rest_ser);
        assert(s.subrange(i, i + ser(first).len() as int) =~= ser(first)) by {
            assert forall|k: int| 0 <= k < ser(first).len() implies s.subrange(
                i,
                i + ser(first).len() as int,
            )[k] == ser(first)[k] by {
                assert(s[i + k] == inner[k]);
                assert(inner[k] == ser(first)[k]);
            }
        }
        let j = i + ser(first).len();
        assert(s[j] == inner[ser(first).len() as int]);
        assert(inner[ser(first).len() as int] == ',');
        assert(decreases_to!(items => items[0]));
        lemma_value_round(s, i, first);
        lemma_ws_stop(s, j);
        assert(s[j] == ',');
        let m = j + 1;
        assert(s.subrange(m, m + rest_ser.len() as int) =~= rest_ser) by {
            assert forall|k: int| 0 <= k < rest_ser.len() implies s.subrange(
                m,
                m + rest_ser.len() as int,
            )[k] == rest_ser[k] by {
                assert(s[m + k] == inner[ser(first).len() + 1 + k]);
                assert(inner[ser(first).len() + 1 + k] == rest_ser[k]);
            }
        }
        assert(s[m + rest_ser.len()] == ']');
        assert(wf_list(rest));
        assert(rest.len() >= 1);
        assert(wf_json(rest[0]));
        lemma_ser_first(rest[0]);
        assert(rest_ser[0] == ser(rest[0])[0]);
        assert(s[m] == rest_ser[0]);
        lemma_ws_stop(s, m);
        lemma_list_round(s, m, rest);
        assert(sp_elements(s, i) == Some((seq![first] + rest, m + rest_ser.len() + 1)));
        assert(seq![first] + rest =~= items);
    }
}

/// As [`lemma_value_round`], for the members of a non-empty object whose
/// closing brace follows the serialized members.
proof fn lemma_members_round(s: Seq<char>, i: int, entries: Seq<(Seq<char>, Json)>)
    requires
        wf_entries(entries),
        entries.len() >= 1,
        0 <= i,
        i + ser_entries(entries).len() < s.len(),
        s.subrange(i, i + ser_entries(entries).len() as int) == ser_entries(entries),
        s[i + ser_entries(entries).len()] == '}',
    ensures
        sp_members(s, i) == Some((entries, i + ser_entries(entries).len() + 1)),
    decreases entries,
{
    let inner = ser_entries(entries);
    let first = entries[0];
    let first_ser = ser_entry(first);
    assert(wf_json(first.1));
    assert forall|k: int| 0 <= k < inner.len() implies s[i + k] == inner[k] by {
        assert(s.subrange(i, i + inner.len() as int)[k] == inner[k]);
    }
    assert(inner.len() >= first_ser.len()) by {
        if entries.len() > 1 {
            assert(inner == first_ser + seq![','] + ser_entries(
                entries.subrange(1, entries.len() as int),
            ));
        }
    }
    assert forall|k: int| 0 <= k < first_ser.len() implies s[i + k] == first_ser[k] by {
        if entries.len() == 1 {
            assert(inner[k] == first_ser[k]);
        } else {
            assert(inner == first_ser + seq![','] + ser_entries(
                entries.subrange(1, entries.len() as int),
            ));
            assert(inner[k] == first_ser[k]);
        }
    }
    assert(first_ser == seq!['"'] + esc(first.0) + seq!['"', ':'] + ser(first.1));
    assert(s[i + 0] == first_ser[0]);
    assert(s[i] == '"');
    let key_end = i + 1 + esc(first.0).len() as int;
    assert(s.subrange(i + 1, key_end) =~= esc(first.0)) by {
        assert forall|k: int| 0 <= k < esc(first.0).len() implies s.subrange(i + 1, key_end)[k]
            == esc(first.0)[k] by {
            assert(s[i + 1 + k] == first_ser[1 + k]);
            assert(first_ser[1 + k] == esc(first.0)[k]);
        }
    }
    assert(s[key_end] == first_ser[1 + esc(first.0).len() as int]);
    assert(first_ser[1 + esc(first.0).len() as int] == '"');
    lemma_str_round(s, i + 1, first.0);
    let j = key_end + 1;
    assert(s[j] == first_ser[j - i]);
    assert(first_ser[j - i] == ':');
    lemma_ws_stop(s, j);
    let vstart = j + 1;
    lemma_ser_first(first.1);
    assert(s.subrange(vstart, vstart + ser(first.1).len() as int) =~= ser(first.1)) by {
        assert forall|k: int| 0 <= k < ser(first.1).len() implies s.subrange(
            vstart,
            vstart + ser(first.1).len() as int,
        )[k] == ser(first.1)[k] by {
            assert(s[vstart + k] == first_ser[(vstart - i) + k]);
            assert(first_ser[(vstart - i) + k] == ser(first.1)[k]);
        }
    }
    assert(s[vstart] == ser(first.1)[0]);
    lemma_ws_stop(s, vstart);
    let vend = vstart + ser(first.1).len();
    assert(vend == i + first_ser.len());
    if entries.len() == 1 {
        assert(inner == first_ser);
        assert(s[vend] == '}');
        assert(decreases_to!(entries => entries[0]));
        assert(decreases_to!(entries[0] => entries[0].1));
        lemma_value_round(s, vstart, first.1);
        lemma_ws_stop(s, vend);
        assert(s[vend] != ',');
        assert(sp_members(s, i) == Some((seq![first], vend + 1)));
        assert(seq![first] =~= entries);
    } else {
        let rest = entries.subrange(1, entries.len() as int);
        let rest_ser = ser_entries(rest);
        assert(inner == first_ser + seq![','] + rest_ser);
        assert(s[vend] == inner[first_ser.len() as int]);
        assert(inner[first_ser.len() as int] == ',');
        assert(decreases_to!(entries => entries[0]));
        assert(decreases_to!(entries[0] => entries[0].1));
        lemma_value_round(s, vstart, first.1);
        lemma_ws_stop(s, vend);
        let m = vend + 1;
        assert(s.subrange(m, m + rest_ser.len() as int) =~= rest_ser) by {
            assert forall|k: int| 0 <= k < rest_ser.len() implies s.subrange(
                m,
                m + rest_ser.len() as int,
            )[k] == rest_ser[k] by {
                assert(s[m + k] == inner[first_ser.len() + 1 + k]);
                assert(inner[first_ser.len() + 1 + k] == rest_ser[k]);
            }
        }
        assert(s[m + rest_ser.len()] == '}');
        assert(wf_entries(rest));
        assert(rest.len() >= 1);
        assert(rest_ser[0] == ser_entry(rest[0])[0]);
        assert(ser_entry(rest[0])[0] == '"');
        assert(s[m] == '"');
        lemma_ws_stop(s, m);
        lemma_members_round(s, m, rest);
        assert(sp_members(s, i) == Some((seq![first] + rest, m + rest_ser.len() + 1)));
        assert(seq![first] + rest =~= entries);
    }
}

/// Round trip: the serialized text of any well-formed document parses
/// back to exactly that document. A serialized request echoed by the
/// server therefore decodes field for field.
pub proof fn lemma_document_round_trip(g: Json)
    requires
        wf_json(g),
    ensures
        sp_document(ser(g)) == Some(g),
{
    let s = ser(g);
    lemma_ser_first(g);
    lemma_ws_stop(s, 0);
    assert(s.subrange(0, s.len() as int) =~= s);
    lemma_value_round(s, 0, g);
    lemma_ws_stop(s, s.len() as int);
}

/// Round trip for the executable documents the encoders produce: writing
/// any [`JsonValue`] and parsing the text back yields its document.
pub proof fn lemma_value_text_round_trip(v: JsonValue)
    ensures
        sp_document(ser(jmodel(v))) == Some(jmodel(v)),
{
    lemma_jmodel_wf(v);
    lemma_document_round_trip(jmodel(v));
}

fn is_ws_char(c: char) -> (r: bool)
    ensures
        r == is_json_ws(c),
{
    c == ' ' || c == '\t' || c == '\n' || c == '\r'
}

fn skip_ws(s: &str, i: usize) -> (r: usize)
    requires
        i <= s@.len(),
    ensures
        r == sp_ws(s@, i as int),
        i <= r <= s@.len(),
    decreases s@.len() - i,
{
    let len = s.unicode_len();
    let mut r = i;
    while r < len && is_ws_char(s.get_char(r))
        invariant
            len == s@.len(),
            i <= r <= len,
            sp_ws(s@, i as int) == sp_ws(s@, r as int),
        decreases len - r,
    {
        r = r + 1;
    }
    proof {
        broadcast use lemma_ws_bounds;

        assert(sp_ws(s@, r as int) == r);
    }
    r
}

fn matches_at(s: &str, i: usize, lit: &str) -> (b: bool)
    requires
        i <= s@.len(),
    ensures
        b == at_lit(s@, i as int, lit@),
{
    let len = s.unicode_len();
    let ln = lit.unicode_len();
    if len - i < ln {
        return false;
    }
    let mut k: usize = 0;
    while k < ln
        invariant
            len == s@.len(),
            ln == lit@.len(),
            i + ln <= len,
            k <= ln,
            forall|q: int| 0 <= q < k ==> s@[i + q] == lit@[q],
        decreases ln - k,
    {
        if s.get_char(i + k) != lit.get_char(k) {
            proof {
                assert(s@.subrange(i as int, i + lit@.len() as int)[k as int] != lit@[k as int]);
            }
            return false;
        }
        k = k + 1;
    }
    proof {
        assert(s@.subrange(i as int, i + lit@.len() as int) =~= lit@);
    }
    true
}

fn hex_digit_val(c: char) -> (v: u32)
    requires
        is_hex_digit_char(c),
    ensures
        v == hex_val(c),
        v < 16,
{
    let u = c as u32;
    if '0' <= c && c <= '9' {
        u - 48
    } else if 'a' <= c && c <= 'f' {
        u - 87
    } else {
        u - 55
    }
}

fn is_hex_digit_exec(c: char) -> (r: bool)
    ensures
        r == is_hex_digit_char(c),
{
    ('0' <= c && c <= '9') || ('a' <= c && c <= 'f') || ('A' <= c && c <= 'F')
}

fn is_digit_char(c: char) -> (r: bool)
    ensures
        r == is_dec_digit(c),
{
    '0' <= c && c <= '9'
}

fn p_str_body(s: &str, i: usize) -> (r: Option<(String, usize)>)
    requires
        i <= s@.len(),
    ensures
        ({
            let g = sp_str_body(s@, i as int);
            match r {
                Some(p) => g is Some && p.0@ == (g->0).0 && p.1 == (g->0).1 && i < p.1 <= s@.len(),
                None => g is None,
            }
        }),
    decreases s@.len() - i,
{
    let len = s.unicode_len();
    if i >= len {
        return None;
    }
    let c = s.get_char(i);
    if c == '"' {
        Some((String::new(), i + 1))
    } else if c == '\\' {
        if len - i < 2 {
            return None;
        }
        let e = s.get_char(i + 1);
        if e == '"' || e == '\\' || e == '/' || e == 'n' || e == 't' || e == 'r' || e == 'b' || e
            == 'f' {
            let ch: char = if e == 'n' {
                '\n'
            } else if e == 't' {
                '\t'
            } else if e == 'r' {
                '\r'
            } else if e == 'b' {
                '\u{8}'
            } else if e == 'f' {
                '\u{c}'
            } else {
                e
            };
            proof {
                assert(ch == unescaped(e));
            }
            match p_str_body(s, i + 2) {
                Some((rest, j)) => {
                    let mut out = String::new();
                    push_char(&mut out, ch);
                    out.append(rest.as_str());
                    proof {
                        assert(out@ =~= seq![unescaped(s@[i + 1])] + rest@);
                    }
                    Some((out, j))
                },
                None => None,
            }
        } else if e == 'u' {
            if len - i >= 6 && s.get_char(i + 2) == '0' && s.get_char(i + 3) == '0'
                && is_hex_digit_exec(s.get_char(i + 4)) && is_hex_digit_exec(s.get_char(i + 5)) {
                let code: u32 = hex_digit_val(s.get_char(i + 4)) * 16 + hex_digit_val(
                    s.get_char(i + 5),
                );
                let ch: char = (code as u8) as char;
                match p_str_body(s, i + 6) {
                    Some((rest, j)) => {
                        let mut out = String::new();
                        push_char(&mut out, ch);
                        out.append(rest.as_str());
                        proof {
                            assert(out@ =~= seq![
                                ((hex_val(s@[i + 4]) * 16 + hex_val(s@[i + 5])) as u8) as char,
                            ] + rest@);
                        }
                        Some((out, j))
                    },
                    None => None,
                }
            } else {
                None
            }
        } else {
            None
        }
    } else {
        match p_str_body(s, i + 1) {
            Some((rest, j)) => {
                let mut out = String::new();
                push_char(&mut out, c);
                out.append(rest.as_str());
                proof {
                    assert(out@ =~= seq![s@[i as int]] + rest@);
                }
                Some((out, j))
            },
            None => None,
        }
    }
}

proof fn lemma_digits_region(s: Seq<char>, i: int)
    requires
        0 <= i <= s.len(),
    ensures
        forall|k: int| i <= k < digits_end(s, i) ==> is_dec_digit(#[trigger] s[k]),
    decreases s.len() - i,
{
    broadcast use lemma_digits_end_bounds;

    if i < s.len() && is_dec_digit(s[i]) {
        lemma_digits_region(s, i + 1);
    }
}

proof fn lemma_digits_val_nonneg(s: Seq<char>, i: int, j: int)
    requires
        i <= j,
        forall|k: int| i <= k < j ==> is_dec_digit(#[trigger] s[k]),
    ensures
        digits_val(s, i, j) >= 0,
    decreases j - i,
{
    if i < j {
        lemma_digits_val_nonneg(s, i, j - 1);
        assert(digits_val(s, i, j - 1) * 10 >= 0) by (nonlinear_arith)
            requires
                digits_val(s, i, j - 1) >= 0,
        ;
    }
}

proof fn lemma_digits_val_mono(s: Seq<char>, i: int, k: int, j: int)
    requires
        i <= k <= j,
        forall|q: int| i <= q < j ==> is_dec_digit(#[trigger] s[q]),
    ensures
        digits_val(s, i, j) >= digits_val(s, i, k),
    decreases j - k,
{
    if k < j {
        lemma_digits_val_mono(s, i, k, j - 1);
        lemma_digits_val_nonneg(s, i, j - 1);
        assert(digits_val(s, i, j - 1) * 10 >= digits_val(s, i, j - 1)) by (nonlinear_arith)
            requires
                digits_val(s, i, j - 1) >= 0,
        ;
    }
}

fn p_number(s: &str, i: usize) -> (r: Option<(i64, usize)>)
    requires
        i < s@.len(),
    ensures
        ({
            let g = sp_number(s@, i as int);
            match r {
                Some(p) => g is Some && p.0 as int == (g->0).0 && p.1 == (g->0).1 && i < p.1
                    <= s@.len(),
                None => g is None,
            }
        }),
{
    let len = s.unicode_len();
    let neg = s.get_char(i) == '-';
    let d0: usize = if neg {
        i + 1
    } else {
        i
    };
    proof {
        lemma_digits_region(s@, d0 as int);
        broadcast use lemma_digits_end_bounds;

    }
    let mut j: usize = d0;
    let mut acc: u128 = 0;
    let bound: u128 = 0x8000_0000_0000_0000;
    while j < len && is_digit_char(s.get_char(j))
        invariant
            len == s@.len(),
            i < len,
            neg == (s@[i as int] == '-'),
            d0 as int == (if neg {
                i as int + 1
            } else {
                i as int
            }),
            d0 <= j <= len,
            acc <= 0x8000_0000_0000_0000,
            bound == 0x8000_0000_0000_0000,
            acc as int == digits_val(s@, d0 as int, j as int),
            digits_end(s@, d0 as int) == digits_end(s@, j as int),
            forall|k: int| d0 <= k < j ==> is_dec_digit(#[trigger] s@[k]),
        decreases len - j,
    {
        let c = s.get_char(j);
        let d: u128 = (c as u32 - 48) as u128;
        let next: u128 = acc * 10 + d;
        proof {
            assert(next as int == digits_val(s@, d0 as int, j + 1 as int));
        }
        proof {
            broadcast use lemma_digits_end_bounds;

            assert(digits_end(s@, j as int) == digits_end(s@, j + 1 as int));
        }
        j = j + 1;
        if next > bound {
            proof {
                broadcast use lemma_digits_end_bounds;

                lemma_digits_region(s@, d0 as int);
                let dend = digits_end(s@, d0 as int);
                assert(dend == digits_end(s@, j as int));
                assert(j <= dend);
                lemma_digits_val_mono(s@, d0 as int, j as int, dend);
                assert(digits_val(s@, d0 as int, dend) > 0x8000_0000_0000_0000);
                assert(dend > d0);
                let sneg = s@[i as int] == '-';
                assert(sneg == neg);
                let sd0: int = if sneg {
                    i as int + 1
                } else {
                    i as int
                };
                assert(sd0 == d0 as int);
                let mag = digits_val(s@, sd0, digits_end(s@, sd0));
                assert(mag > 0x8000_0000_0000_0000);
                if neg {
                    assert(-mag < -0x8000_0000_0000_0000);
                }
                assert(sp_number(s@, i as int) is None);
            }
            return None;
        }
        acc = next;
    }
    proof {
        assert(digits_end(s@, j as int) == j);
    }
    if j == d0 {
        return None;
    }
    if neg {
        let value: i64 = (-(acc as i128)) as i64;
        proof {
            assert(value as int == -(acc as int));
        }
        Some((value, j))
    } else {
        if acc > 0x7FFF_FFFF_FFFF_FFFF {
            proof {
                assert(sp_number(s@, i as int) is None);
            }
            None
        } else {
            Some((acc as i64, j))
        }
    }
}

fn p_value(s: &str, i: usize) -> (r: Option<(JsonValue, usize)>)
    requires
        i <= s@.len(),
    ensures
        ({
            let g = sp_value(s@, i as int);
            match r {
                Some(p) => g is Some && jmodel(p.0) == (g->0).0 && p.1 == (g->0).1 && i < p.1
                    <= s@.len(),
                None => g is None,
            }
        }),
    decreases s@.len() - i, 0int,
{
    let len = s.unicode_len();
    if i >= len {
        return None;
    }
    let c = s.get_char(i);
    if c == 'n' {
        if matches_at(s, i, "null") {
            proof {
                reveal_strlit("null");
            }
            Some((JsonValue::Null, i + 4))
        } else {
            None
        }
    } else if c == 't' {
        if matches_at(s, i, "true") {
            proof {
                reveal_strlit("true");
            }
            Some((JsonValue::Bool(true), i + 4))
        } else {
            None
        }
    } else if c == 'f' {
        if matches_at(s, i, "false") {
            proof {
                reveal_strlit("false");
            }
            Some((JsonValue::Bool(false), i + 5))
        } else {
            None
        }
    } else if c == '"' {
        match p_str_body(s, i + 1) {
            Some((text, j)) => Some((JsonValue::Str(text), j)),
            None => None,
        }
    } else if c == '[' {
        let j = skip_ws(s, i + 1);
        if j < len && s.get_char(j) == ']' {
            proof {
                assert(jmodel_list(Seq::<JsonValue>::empty()) =~= Seq::<Json>::empty());
            }
            Some((JsonValue::Arr(Vec::new()), j + 1))
        } else {
            match p_elements(s, j) {
                Some((items, k)) => Some((JsonValue::Arr(items), k)),
                None => None,
            }
        }
    } else if c == '{' {
        let j = skip_ws(s, i + 1);
        if j < len && s.get_char(j) == '}' {
            proof {
                assert(jmodel_entries(Seq::<(String, JsonValue)>::empty()) =~= Seq::<
                    (Seq<char>, Json),
                >::empty());
            }
            Some((JsonValue::Obj(Vec::new()), j + 1))
        } else {
            match p_members(s, j) {
                Some((entries, k)) => Some((JsonValue::Obj(entries), k)),
                None => None,
            }
        }
    } else if c == '-' || ('0' <= c && c <= '9') {
        match p_number(s, i) {
            Some((n, j)) => Some((JsonValue::Int(n), j)),
            None => None,
        }
    } else {
        None
    }
}

fn p_elements(s: &str, i: usize) -> (r: Option<(Vec<JsonValue>, usize)>)
    requires
        i <= s@.len(),
    ensures
        ({
            let g = sp_elements(s@, i as int);
            match r {
                Some(p) => g is Some && jmodel_list(p.0@) == (g->0).0 && p.1 == (g->0).1 && i < p.1
                    <= s@.len(),
                None => g is None,
            }
        }),
    decreases s@.len() - i, 1int,
{
    let len = s.unicode_len();
    match p_value(s, i) {
        None => None,
        Some((v, j)) => {
            let k = skip_ws(s, j);
            if k < len && s.get_char(k) == ',' {
                let m = skip_ws(s, k + 1);
                match p_elements(s, m) {
                    Some((mut items, e)) => {
                        let ghost tail = items@;
                        items.insert(0, v);
                        proof {
                            assert(items@ =~= seq![v] + tail);
                            assert(items@.subrange(1, items@.len() as int) =~= tail);
                            assert(jmodel_list(items@) =~= seq![jmodel(v)] + jmodel_list(tail));
                        }
                        Some((items, e))
                    },
                    None => None,
                }
            } else if k < len && s.get_char(k) == ']' {
                let mut items: Vec<JsonValue> = Vec::new();
                items.push(v);
                proof {
                    broadcast use lemma_jmodel_list_len, lemma_jmodel_list_index;

                    assert(items@ =~= seq![v]);
                    assert(jmodel_list(items@) =~= seq![jmodel(v)]);
                }
                Some((items, k + 1))
            } else {
                None
            }
        },
    }
}

fn p_members(s: &str, i: usize) -> (r: Option<(Vec<(String, JsonValue)>, usize)>)
    requires
        i <= s@.len(),
    ensures
        ({
            let g = sp_members(s@, i as int);
            match r {
                Some(p) => g is Some && jmodel_entries(p.0@) == (g->0).0 && p.1 == (g->0).1 && i < p.1
                    <= s@.len(),
                None => g is None,
            }
        }),
    decreases s@.len() - i, 1int,
{
    let len = s.unicode_len();
    if i >= len || s.get_char(i) != '"' {
        return None;
    }
    match p_str_body(s, i + 1) {
        None => None,
        Some((key, j)) => {
            let c = skip_ws(s, j);
            if c < len && s.get_char(c) == ':' {
                let vstart = skip_ws(s, c + 1);
                match p_value(s, vstart) {
                    None => None,
                    Some((v, e)) => {
                        let t = skip_ws(s, e);
                        if t < len && s.get_char(t) == ',' {
                            let n = skip_ws(s, t + 1);
                            match p_members(s, n) {
                                Some((mut entries, z)) => {
                                    let ghost tail = entries@;
                                    let ghost kv = key@;
                                    let ghost vg = jmodel(v);
                                    entries.insert(0, (key, v));
                                    proof {
                                        assert(entries@.subrange(1, entries@.len() as int)
                                            =~= tail);
                                        assert(jmodel_entries(entries@) =~= seq![(kv, vg)]
                                            + jmodel_entries(tail));
                                    }
                                    Some((entries, z))
                                },
                                None => None,
                            }
                        } else if t < len && s.get_char(t) == '}' {
                            let ghost kv = key@;
                            let ghost vg = jmodel(v);
                            let mut entries: Vec<(String, JsonValue)> = Vec::new();
                            entries.push((key, v));
                            proof {
                                broadcast use lemma_jmodel_entries_len, lemma_jmodel_entries_index;

                                assert(entries@ =~= seq![(key, v)]);
                                assert(jmodel_entries(entries@) =~= seq![(kv, vg)]);
                            }
                            Some((entries, t + 1))
                        } else {
                            None
                        }
                    },
                }
            } else {
                None
            }
        },
    }
}

/// The first entry of an object with the given key, if any.
pub open spec fn jlookup_entries(entries: Seq<(Seq<char>, Json)>, k: Seq<char>) -> Option<Json>
    decreases entries.len(),
{
    if entries.len() == 0 {
        None
    } else if entries[0].0 == k {
        Some(entries[0].1)
    } else {
        jlookup_entries(entries.subrange(1, entries.len() as int), k)
    }
}

/// The field `k` of a document, when the document is an object carrying it.
pub open spec fn jfield(g: Json, k: Seq<char>) -> Option<Json> {
    match g {
        Json::Obj(es) => jlookup_entries(es, k),
        _ => None,
    }
}

/// A required string field: present and a string.
pub open spec fn jstr_field(g: Json, k: Seq<char>) -> Option<Seq<char>> {
    match jfield(g, k) {
        Some(Json::Str(s)) => Some(s),
        _ => None,
    }
}

/// A required integer field: present and an integer.
pub open spec fn jint_field(g: Json, k: Seq<char>) -> Option<int> {
    match jfield(g, k) {
        Some(Json::Int(n)) => Some(n),
        _ => None,
    }
}

/// A required boolean field: present and a boolean.
pub open spec fn jbool_field(g: Json, k: Seq<char>) -> Option<bool> {
    match jfield(g, k) {
        Some(Json::Bool(b)) => Some(b),
        _ => None,
    }
}

/// An optional string field: `Some(None)` when absent or null,
/// `Some(Some(s))` when a string, `None` when another shape.
pub open spec fn jopt_str_field(g: Json, k: Seq<char>) -> Option<Option<Seq<char>>> {
    match jfield(g, k) {
        None => Some(None),
        Some(Json::Null) => Some(None),
        Some(Json::Str(s)) => Some(Some(s)),
        Some(_) => None,
    }
}

/// An optional integer field, as [`jopt_str_field`].
pub open spec fn jopt_int_field(g: Json, k: Seq<char>) -> Option<Option<int>> {
    match jfield(g, k) {
        None => Some(None),
        Some(Json::Null) => Some(None),
        Some(Json::Int(n)) => Some(Some(n)),
        Some(_) => None,
    }
}

/// An optional opaque JSON field: absent and null both read as absent.
pub open spec fn jopt_json_field(g: Json, k: Seq<char>) -> Option<Json> {
    match jfield(g, k) {
        None => None,
        Some(Json::Null) => None,
        Some(v) => Some(v),
    }
}

/// A list of strings, when every element is a string.
pub open spec fn jstrs(items: Seq<Json>) -> Option<Seq<Seq<char>>>
    decreases items.len(),
{
    if items.len() == 0 {
        Some(Seq::empty())
    } else {
        match items[0] {
            Json::Str(s) => match jstrs(items.subrange(1, items.len() as int)) {
                Some(t) => Some(seq![s] + t),
                None => None,
            },
            _ => None,
        }
    }
}

/// A required string-list field.
pub open spec fn jstrlist_field(g: Json, k: Seq<char>) -> Option<Seq<Seq<char>>> {
    match jfield(g, k) {
        Some(Json::Arr(items)) => jstrs(items),
        _ => None,
    }
}

pub proof fn lemma_lookup_found(es: Seq<(Seq<char>, Json)>, k: Seq<char>, i: int)
    requires
        0 <= i < es.len(),
        es[i].0 == k,
        forall|q: int| 0 <= q < i ==> #[trigger] es[q].0 != k,
    ensures
        jlookup_entries(es, k) == Some(es[i].1),
    decreases i,
{
    if i > 0 {
        let tail = es.subrange(1, es.len() as int);
        lemma_lookup_found(tail, k, i - 1);
    }
}

pub proof fn lemma_lookup_absent(es: Seq<(Seq<char>, Json)>, k: Seq<char>)
    requires
        forall|q: int| 0 <= q < es.len() ==> #[trigger] es[q].0 != k,
    ensures
        jlookup_entries(es, k) is None,
    decreases es.len(),
{
    if es.len() > 0 {
        lemma_lookup_absent(es.subrange(1, es.len() as int), k);
    }
}

/// Are two strings the same text?
pub fn str_eq(a: &str, b: &str) -> (r: bool)
    ensures
        r == (a@ == b@),
{
    let an = a.unicode_len();
    let bn = b.unicode_len();
    if an != bn {
        return false;
    }
    let mut i: usize = 0;
    while i < an
        invariant
            an == a@.len(),
            bn == b@.len(),
            an == bn,
            i <= an,
            forall|k: int| 0 <= k < i ==> a@[k] == b@[k],
        decreases an - i,
    {
        if a.get_char(i) != b.get_char(i) {
            return false;
        }
        i = i + 1;
    }
    proof {
        assert(a@ =~= b@);
    }
    true
}

/// The field `key` of an object document, borrowed.
pub fn get_field<'a>(v: &'a JsonValue, key: &str) -> (r: Option<&'a JsonValue>)
    ensures
        match r {
            Some(f) => jfield(v@, key@) == Some(f@),
            None => jfield(v@, key@) is None,
        },
{
    match v {
        JsonValue::Obj(entries) => {
            let count = entries.len();
            let mut i: usize = 0;
            while i < count
                invariant
                    *v == JsonValue::Obj(*entries),
                    count == entries@.len(),
                    i <= count,
                    forall|q: int|
                        0 <= q < i ==> #[trigger] jmodel_entries(entries@)[q].0 != key@,
                decreases count - i,
            {
                proof {
                    broadcast use lemma_jmodel_entries_len, lemma_jmodel_entries_index;

                }
                if str_eq(entries[i].0.as_str(), key) {
                    proof {
                        broadcast use lemma_jmodel_entries_len, lemma_jmodel_entries_index;

                        lemma_lookup_found(jmodel_entries(entries@), key@, i as int);
                    }
                    return Some(&entries[i].1);
                }
                i = i + 1;
            }
            proof {
                broadcast use lemma_jmodel_entries_len, lemma_jmodel_entries_index;

                lemma_lookup_absent(jmodel_entries(entries@), key@);
            }
            None
        },
        _ => None,
    }
}

/// A deep copy of a document.
pub fn clone_json(v: &JsonValue) -> (r: JsonValue)
    ensures
        r@ == v@,
    decreases *v,
{
    match v {
        JsonValue::Null => JsonValue::Null,
        JsonValue::Bool(b) => JsonValue::Bool(*b),
        JsonValue::Int(n) => JsonValue::Int(*n),
        JsonValue::Str(s) => JsonValue::Str(s.clone()),
        JsonValue::Arr(items) => {
            let count = items.len();
            let mut out: Vec<JsonValue> = Vec::new();
            let mut i: usize = 0;
            while i < count
                invariant
                    *v == JsonValue::Arr(*items),
                    count == items@.len(),
                    i <= count,
                    out@.len() == i,
                    forall|q: int| 0 <= q < i ==> (#[trigger] out@[q])@ == items@[q]@,
                decreases count - i,
            {
                proof {
                    assert(*items == v->Arr_0);
                    assert(decreases_to!(*v => v->Arr_0));
                    assert(decreases_to!(*items => items@));
                    assert(decreases_to!(items@ => items@[i as int]));
                }
                let c = clone_json(&items[i]);
                out.push(c);
                i = i + 1;
            }
            proof {
                broadcast use lemma_jmodel_list_len, lemma_jmodel_list_index;

                assert(jmodel_list(out@) =~= jmodel_list(items@));
            }
            JsonValue::Arr(out)
        },
        JsonValue::Obj(entries) => {
            let count = entries.len();
            let mut out: Vec<(String, JsonValue)> = Vec::new();
            let mut i: usize = 0;
            while i < count
                invariant
                    *v == JsonValue::Obj(*entries),
                    count == entries@.len(),
                    i <= count,
                    out@.len() == i,
                    forall|q: int|
                        0 <= q < i ==> (#[trigger] out@[q]).0@ == entries@[q].0@ && out@[q].1@
                            == entries@[q].1@,
                decreases count - i,
            {
                proof {
                    assert(*entries == v->Obj_0);
                    assert(decreases_to!(*v => v->Obj_0));
                    assert(decreases_to!(*entries => entries@));
                    assert(decreases_to!(entries@ => entries@[i as int]));
                    assert(decreases_to!(entries@[i as int] => entries@[i as int].1));
                }
                let key = entries[i].0.clone();
                let val = clone_json(&entries[i].1);
                out.push((key, val));
                i = i + 1;
            }
            proof {
                broadcast use lemma_jmodel_entries_len, lemma_jmodel_entries_index;

                assert(jmodel_entries(out@) =~= jmodel_entries(entries@));
            }
            JsonValue::Obj(out)
        },
    }
}

/// Parse a JSON document from text. Returns exactly the documents the
/// grammar in [`sp_document`] accepts.
pub fn parse_json_text(s: &str) -> (r: Option<JsonValue>)
    ensures
        ({
            let g = sp_document(s@);
            match r {
                Some(v) => g is Some && jmodel(v) == g->0,
                None => g is None,
            }
        }),
{
    let i = skip_ws(s, 0);
    match p_value(s, i) {
        None => None,
        Some((v, j)) => {
            let t = skip_ws(s, j);
            if t == s.unicode_len() {
                Some(v)
            } else {
                None
            }
        },
    }
}

} // verus!

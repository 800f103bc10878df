use vstd::prelude::*;

use crate::text::{
    append_chars, append_str, chars_of, i64_chars, spec_i64_text, str_eq, string_of,
};

verus! {

// ---------------------------------------------------------------------------
// The JSON value model
// ---------------------------------------------------------------------------

/// A decoded JSON value.
///
/// Object fields are kept as a list of key/value pairs in their original
/// order, since the generic rendering walks them in encounter order.  An
/// integer that fits `i64` is held as such; any other number keeps its
/// source text in `BigNum`.
#[derive(Debug)]
pub enum JsonValue {
    Null,
    Bool(bool),
    Int(i64),
    BigNum(String),
    Str(String),
    Arr(Vec<JsonValue>),
    Obj(Vec<(String, JsonValue)>),
}

/// Size measure used for termination of the recursive walks below.
pub open spec fn spec_json_size(v: JsonValue) -> nat
    decreases v,
{
    match v {
        JsonValue::Arr(items) => 1 + spec_json_arr_size(items@),
        JsonValue::Obj(fields) => 1 + spec_json_obj_size(fields@),
        _ => 1,
    }
}

pub open spec fn spec_json_arr_size(items: Seq<JsonValue>) -> nat
    decreases items,
{
    if items.len() == 0 {
        0
    } else {
        spec_json_size(items[0]) + spec_json_arr_size(items.drop_first())
    }
}

pub open spec fn spec_json_obj_size(fields: Seq<(String, JsonValue)>) -> nat
    decreases fields,
{
    if fields.len() == 0 {
        0
    } else {
        spec_json_size(fields[0].1) + spec_json_obj_size(fields.drop_first())
    }
}

// ---------------------------------------------------------------------------
// Object field lookup
// ---------------------------------------------------------------------------

/// The value of the first field named `key`, if any.
pub open spec fn spec_lookup(fields: Seq<(String, JsonValue)>, key: Seq<char>) -> Option<JsonValue>
    decreases fields.len(),
{
    if fields.len() == 0 {
        None
    } else if fields[0].0@ == key {
        Some(fields[0].1)
    } else {
        spec_lookup(fields.drop_first(), key)
    }
}

/// Field lookup on a value: `None` whenever the value is not an object.
pub open spec fn spec_json_get(v: JsonValue, key: Seq<char>) -> Option<JsonValue> {
    match v {
        JsonValue::Obj(fields) => spec_lookup(fields@, key),
        _ => None,
    }
}

/// Look a key up in a field list.
pub fn obj_get<'a>(fields: &'a Vec<(String, JsonValue)>, key: &str) -> (r: Option<
    &'a JsonValue,
>)
    ensures
        match r {
            Some(x) => spec_lookup(fields@, key@) == Some(*x),
            None => spec_lookup(fields@, key@) is None,
        },
{
    proof {
        assert(fields@.skip(0) =~= fields@);
    }
    let mut i: usize = 0;
    while i < fields.len()
        invariant
            i <= fields@.len(),
            spec_lookup(fields@, key@) == spec_lookup(fields@.skip(i as int), key@),
        decreases fields@.len() - i,
    {
        if str_eq(fields[i].0.as_str(), key) {
            proof {
                assert(fields@.skip(i as int)[0] == fields@[i as int]);
            }
            return Some(&fields[i].1);
        }
        proof {
            assert(fields@.skip(i as int).drop_first() =~= fields@.skip(i as int + 1));
        }
        i = i + 1;
    }
    None
}

/// Look a key up in a value, as the record dispatch does: objects only.
pub fn json_get<'a>(v: &'a JsonValue, key: &str) -> (r: Option<&'a JsonValue>)
    ensures
        match r {
            Some(x) => spec_json_get(*v, key@) == Some(*x),
            None => spec_json_get(*v, key@) is None,
        },
{
    match v {
        JsonValue::Obj(fields) => obj_get(fields, key),
        _ => None,
    }
}

// ---------------------------------------------------------------------------
// JSON string escaping
// ---------------------------------------------------------------------------

/// The lowercase hexadecimal digit for `d`, which must lie in `0 ..= 15`.
pub open spec fn spec_hex_digit(d: int) -> char {
    if d == 0 {
        '0'
    } else if d == 1 {
        '1'
    } else if d == 2 {
        '2'
    } else if d == 3 {
        '3'
    } else if d == 4 {
        '4'
    } else if d == 5 {
        '5'
    } else if d == 6 {
        '6'
    } else if d == 7 {
        '7'
    } else if d == 8 {
        '8'
    } else if d == 9 {
        '9'
    } else if d == 10 {
        'a'
    } else if d == 11 {
        'b'
    } else if d == 12 {
        'c'
    } else if d == 13 {
        'd'
    } else if d == 14 {
        'e'
    } else {
        'f'
    }
}

/// How one character appears inside a JSON string literal: quotes and
/// backslashes are escaped, control characters get their short escape or a
/// `\u00..` form, and everything else stands as itself.
pub open spec fn spec_escape_char(c: char) -> Seq<char> {
    if c == '"' {
        seq!['\\', '"']
    } else if c == '\\' {
        seq!['\\', '\\']
    } else if c == '\u{08}' {
        seq!['\\', 'b']
    } else if c == '\u{0c}' {
        seq!['\\', 'f']
    } else if c == '\n' {
        seq!['\\', 'n']
    } else if c == '\r' {
        seq!['\\', 'r']
    } else if c == '\t' {
        seq!['\\', 't']
    } else if (c as int) < 0x20 {
        seq!['\\', 'u', '0', '0', spec_hex_digit(c as int / 16), spec_hex_digit(c as int % 16)]
    } else {
        seq![c]
    }
}

/// A whole string as it appears between the quotes of a JSON string literal.
pub open spec fn spec_escaped(s: Seq<char>) -> Seq<char>
    decreases s.len(),
{
    if s.len() == 0 {
        Seq::empty()
    } else {
        spec_escape_char(s[0]) + spec_escaped(s.drop_first())
    }
}

proof fn lemma_escaped_push(s: Seq<char>, c: char)
    ensures
        spec_escaped(s.push(c)) == spec_escaped(s) + spec_escape_char(c),
    decreases s.len(),
{
    if s.len() == 0 {
        assert(s =~= Seq::<char>::empty());
        assert(s.push(c).drop_first() =~= Seq::<char>::empty());
        assert(s.push(c)[0] == c);
        assert(spec_escaped(s.push(c)) == spec_escape_char(c) + spec_escaped(
            s.push(c).drop_first(),
        ));
        assert(spec_escape_char(c) + Seq::<char>::empty() =~= spec_escape_char(c));
        assert(Seq::<char>::empty() + spec_escape_char(c) =~= spec_escape_char(c));
    } else {
        assert(s.push(c).drop_first() =~= s.drop_first().push(c));
        lemma_escaped_push(s.drop_first(), c);
        assert(s.push(c)[0] == s[0]);
        assert(spec_escaped(s.push(c)) == spec_escape_char(s[0]) + spec_escaped(
            s.drop_first().push(c),
        ));
        assert(spec_escaped(s) == spec_escape_char(s[0]) + spec_escaped(s.drop_first()));
        assert(spec_escape_char(s[0]) + (spec_escaped(s.drop_first()) + spec_escape_char(c)) =~= (
        spec_escape_char(s[0]) + spec_escaped(s.drop_first())) + spec_escape_char(c));
    }
}

fn hex_digit_char(d: u32) -> (c: char)
    requires
        d < 16,
    ensures
        c == spec_hex_digit(d as int),
{
    if d == 0 {
        '0'
    } else if d == 1 {
        '1'
    } else if d == 2 {
        '2'
    } else if d == 3 {
        '3'
    } else if d == 4 {
        '4'
    } else if d == 5 {
        '5'
    } else if d == 6 {
        '6'
    } else if d == 7 {
        '7'
    } else if d == 8 {
        '8'
    } else if d == 9 {
        '9'
    } else if d == 10 {
        'a'
    } else if d == 11 {
        'b'
    } else if d == 12 {
        'c'
    } else if d == 13 {
        'd'
    } else if d == 14 {
        'e'
    } else {
        'f'
    }
}

/// The escaped form of one character, as a vector.
fn escape_char_chars(c: char) -> (v: Vec<char>)
    ensures
        v@ == spec_escape_char(c),
{
    let mut v: Vec<char> = Vec::new();
    if c == '"' {
        v.push('\\');
        v.push('"');
        proof {
            assert(v@ =~= spec_escape_char(c));
        }
    } else if c == '\\' {
        v.push('\\');
        v.push('\\');
        proof {
            assert(v@ =~= spec_escape_char(c));
        }
    } else if c == '\u{08}' {
        v.push('\\');
        v.push('b');
        proof {
            assert(v@ =~= spec_escape_char(c));
        }
    } else if c == '\u{0c}' {
        v.push('\\');
        v.push('f');
        proof {
            assert(v@ =~= spec_escape_char(c));
        }
    } else if c == '\n' {
        v.push('\\');
        v.push('n');
        proof {
            assert(v@ =~= spec_escape_char(c));
        }
    } else if c == '\r' {
        v.push('\\');
        v.push('r');
        proof {
            assert(v@ =~= spec_escape_char(c));
        }
    } else if c == '\t' {
        v.push('\\');
        v.push('t');
        proof {
            assert(v@ =~= spec_escape_char(c));
        }
    } else if (c as u32) < 0x20 {
        v.push('\\');
        v.push('u');
        v.push('0');
        v.push('0');
        v.push(hex_digit_char((c as u32) / 16));
        v.push(hex_digit_char((c as u32) % 16));
        proof {
            assert(v@ =~= spec_escape_char(c));
        }
    } else {
        v.push(c);
        proof {
            assert(v@ =~= spec_escape_char(c));
        }
    }
    v
}

/// Append the JSON-escaped form of `s` to `out`.
fn append_escaped(out: &mut Vec<char>, s: &str)
    ensures
        final(out)@ == old(out)@ + spec_escaped(s@),
{
    let chars = chars_of(s);
    proof {
        assert(old(out)@ + spec_escaped(s@.take(0)) =~= old(out)@);
    }
    let mut i: usize = 0;
    while i < chars.len()
        invariant
            chars@ == s@,
            i <= chars@.len(),
            out@ == old(out)@ + spec_escaped(s@.take(i as int)),
        decreases chars@.len() - i,
    {
        let piece = escape_char_chars(chars[i]);
        append_chars(out, &piece);
        i = i + 1;
        proof {
            assert(s@.take(i as int) =~= s@.take(i as int - 1).push(s@[i as int - 1]));
            lemma_escaped_push(s@.take(i as int - 1), s@[i as int - 1]);
            assert(out@ =~= old(out)@ + spec_escaped(s@.take(i as int)));
        }
    }
    proof {
        assert(s@.take(s@.len() as int) =~= s@);
    }
}

// ---------------------------------------------------------------------------
// Rendering a value back to JSON text
// ---------------------------------------------------------------------------

/// The compact JSON text of a value.  A `BigNum` keeps its source text.
pub open spec fn spec_json_text(v: JsonValue) -> Seq<char>
    decreases spec_json_size(v), 0int, 0int,
{
    match v {
        JsonValue::Null => seq!['n', 'u', 'l', 'l'],
        JsonValue::Bool(b) => if b {
            seq!['t', 'r', 'u', 'e']
        } else {
            seq!['f', 'a', 'l', 's', 'e']
        },
        JsonValue::Int(n) => spec_i64_text(n as int),
        JsonValue::BigNum(t) => t@,
        JsonValue::Str(s) => seq!['"'] + spec_escaped(s@) + seq!['"'],
        JsonValue::Arr(items) => seq!['['] + spec_json_items(items@) + seq![']'],
        JsonValue::Obj(fields) => seq!['{'] + spec_json_fields(fields@) + seq!['}'],
    }
}

/// The comma-separated renderings of array items.
pub open spec fn spec_json_items(items: Seq<JsonValue>) -> Seq<char>
    decreases spec_json_arr_size(items), 1int, items.len(),
{
    if items.len() == 0 {
        Seq::empty()
    } else if items.len() == 1 {
        spec_json_text(items[0])
    } else {
        spec_json_text(items[0]) + seq![','] + spec_json_items(items.drop_first())
    }
}

/// The comma-separated renderings of object fields, keys quoted and escaped.
pub open spec fn spec_json_fields(fields: Seq<(String, JsonValue)>) -> Seq<char>
    decreases spec_json_obj_size(fields), 1int, fields.len(),
{
    if fields.len() == 0 {
        Seq::empty()
    } else if fields.len() == 1 {
        spec_json_field(fields[0])
    } else {
        spec_json_field(fields[0]) + seq![','] + spec_json_fields(fields.drop_first())
    }
}

/// One rendered object field: `"key":value`.
pub open spec fn spec_json_field(field: (String, JsonValue)) -> Seq<char>
    decreases spec_json_size(field.1), 0int, 1int,
{
    seq!['"'] + spec_escaped(field.0@) + seq!['"', ':'] + spec_json_text(field.1)
}

/// How a value is shown as plain text: a string shows its characters, any
/// other value shows its JSON text.
pub open spec fn spec_text_value(v: JsonValue) -> Seq<char> {
    match v {
        JsonValue::Str(s) => s@,
        _ => spec_json_text(v),
    }
}

/// Render a value as compact JSON text.
pub fn json_text_chars(v: &JsonValue) -> (out: Vec<char>)
    ensures
        out@ == spec_json_text(*v),
    decreases spec_json_size(*v),
{
    let mut out: Vec<char> = Vec::new();
    match v {
        JsonValue::Null => {
            append_str(&mut out, "null");
            proof {
                reveal_strlit("null");
                assert(out@ =~= spec_json_text(*v));
            }
        },
        JsonValue::Bool(b) => {
            if *b {
                append_str(&mut out, "true");
                proof {
                    reveal_strlit("true");
                    assert(out@ =~= spec_json_text(*v));
                }
            } else {
                append_str(&mut out, "false");
                proof {
                    reveal_strlit("false");
                    assert(out@ =~= spec_json_text(*v));
                }
            }
        },
        JsonValue::Int(n) => {
            let digits = i64_chars(*n);
            append_chars(&mut out, &digits);
            proof {
                assert(out@ =~= spec_json_text(*v));
            }
        },
        JsonValue::BigNum(t) => {
            append_str(&mut out, t.as_str());
            proof {
                assert(out@ =~= spec_json_text(*v));
            }
        },
        JsonValue::Str(s) => {
            out.push('"');
            append_escaped(&mut out, s.as_str());
            out.push('"');
            proof {
                assert(out@ =~= spec_json_text(*v));
            }
        },
        JsonValue::Arr(items) => {
            out.push('[');
            let mut i: usize = 0;
            while i < items.len()
                invariant
                    *v == JsonValue::Arr(*items),
                    i <= items@.len(),
                    out@ == seq!['['] + spec_json_items(items@.take(i as int)) + (if i
                        < items@.len() && i > 0 {
                        seq![',']
                    } else {
                        Seq::empty()
                    }),
                decreases items@.len() - i,
            {
                proof {
                    lemma_arr_size_split(items@, i as int);
                    assert(*v == JsonValue::Arr(*items));
                    assert(spec_json_size(*v) == 1 + spec_json_arr_size(items@));
                    assert(spec_json_size(items@[i as int]) < spec_json_size(*v));
                }
                let piece = json_text_chars(&items[i]);
                append_chars(&mut out, &piece);
                if i + 1 < items.len() {
                    out.push(',');
                }
                i = i + 1;
                proof {
                    lemma_json_items_take(items@, i as int);
                    if i < items@.len() {
                        assert(out@ =~= seq!['['] + spec_json_items(items@.take(i as int)) + seq![
                            ',',
                        ]);
                    } else {
                        assert(out@ =~= seq!['['] + spec_json_items(items@.take(i as int)));
                    }
                }
            }
            out.push(']');
            proof {
                assert(items@.take(items@.len() as int) =~= items@);
                assert(out@ =~= spec_json_text(*v));
            }
        },
        JsonValue::Obj(fields) => {
            out.push('{');
            let mut i: usize = 0;
            while i < fields.len()
                invariant
                    *v == JsonValue::Obj(*fields),
                    i <= fields@.len(),
                    out@ == seq!['{'] + spec_json_fields(fields@.take(i as int)) + (if i
                        < fields@.len() && i > 0 {
                        seq![',']
                    } else {
                        Seq::empty()
                    }),
                decreases fields@.len() - i,
            {
                proof {
                    lemma_obj_size_split(fields@, i as int);
                    assert(*v == JsonValue::Obj(*fields));
                    assert(spec_json_size(*v) == 1 + spec_json_obj_size(fields@));
                    assert(spec_json_size(fields@[i as int].1) < spec_json_size(*v));
                }
                out.push('"');
                append_escaped(&mut out, fields[i].0.as_str());
                out.push('"');
                out.push(':');
                let piece = json_text_chars(&fields[i].1);
                append_chars(&mut out, &piece);
                if i + 1 < fields.len() {
                    out.push(',');
                }
                i = i + 1;
                proof {
                    lemma_json_fields_take(fields@, i as int);
                    if i < fields@.len() {
                        assert(out@ =~= seq!['{'] + spec_json_fields(fields@.take(i as int))
                            + seq![',']);
                    } else {
                        assert(out@ =~= seq!['{'] + spec_json_fields(fields@.take(i as int)));
                    }
                }
            }
            out.push('}');
            proof {
                assert(fields@.take(fields@.len() as int) =~= fields@);
                assert(out@ =~= spec_json_text(*v));
            }
        },
    }
    out
}

proof fn lemma_arr_size_split(items: Seq<JsonValue>, i: int)
    requires
        0 <= i < items.len(),
    ensures
        spec_json_arr_size(items.skip(i)) == spec_json_size(items[i]) + spec_json_arr_size(
            items.skip(i + 1),
        ),
        spec_json_arr_size(items.skip(i)) <= spec_json_arr_size(items),
    decreases i,
{
    assert(items.skip(i)[0] == items[i]);
    assert(items.skip(i).drop_first() =~= items.skip(i + 1));
    if i > 0 {
        lemma_arr_size_split(items, i - 1);
        assert(items.skip(i - 1).drop_first() =~= items.skip(i));
    } else {
        assert(items.skip(0) =~= items);
    }
}

proof fn lemma_obj_size_split(fields: Seq<(String, JsonValue)>, i: int)
    requires
        0 <= i < fields.len(),
    ensures
        spec_json_obj_size(fields.skip(i)) == spec_json_size(fields[i].1) + spec_json_obj_size(
            fields.skip(i + 1),
        ),
        spec_json_obj_size(fields.skip(i)) <= spec_json_obj_size(fields),
    decreases i,
{
    assert(fields.skip(i)[0] == fields[i]);
    assert(fields.skip(i).drop_first() =~= fields.skip(i + 1));
    if i > 0 {
        lemma_obj_size_split(fields, i - 1);
        assert(fields.skip(i - 1).drop_first() =~= fields.skip(i));
    } else {
        assert(fields.skip(0) =~= fields);
    }
}

proof fn lemma_json_items_take(items: Seq<JsonValue>, i: int)
    requires
        0 < i <= items.len(),
    ensures
        spec_json_items(items.take(i)) == if i == 1 {
            spec_json_text(items[0])
        } else {
            spec_json_items(items.take(i - 1)) + seq![','] + spec_json_text(items[i - 1])
        },
    decreases i,
{
    if i == 1 {
        assert(items.take(1).len() == 1);
        assert(items.take(1)[0] == items[0]);
    } else {
        lemma_json_items_take(items.drop_first(), i - 1);
        assert(items.take(i).drop_first() =~= items.drop_first().take(i - 1));
        assert(items.take(i)[0] == items[0]);
        assert(items.take(i - 1).drop_first() =~= items.drop_first().take(i - 2));
        assert(items.take(i - 1)[0] == items[0]);
        assert(items.drop_first()[i - 2] == items[i - 1]);
        if i - 1 == 1 {
            assert(items.take(i - 1).len() == 1);
            assert(spec_json_items(items.take(i - 1)) == spec_json_text(items[0]));
            assert(spec_json_items(items.take(i)) == spec_json_text(items[0]) + seq![',']
                + spec_json_items(items.drop_first().take(i - 1)));
            assert(items.drop_first().take(1)[0] == items[1]);
            assert(spec_json_items(items.drop_first().take(i - 1)) == spec_json_text(items[1]));
        } else {
            assert(spec_json_items(items.take(i)) == spec_json_text(items[0]) + seq![',']
                + spec_json_items(items.drop_first().take(i - 1)));
            assert(spec_json_items(items.take(i - 1)) == spec_json_text(items[0]) + seq![',']
                + spec_json_items(items.drop_first().take(i - 2)));
        }
        assert(spec_json_items(items.take(i)) =~= spec_json_items(items.take(i - 1)) + seq![',']
            + spec_json_text(items[i - 1]));
    }
}

proof fn lemma_json_fields_take(fields: Seq<(String, JsonValue)>, i: int)
    requires
        0 < i <= fields.len(),
    ensures
        spec_json_fields(fields.take(i)) == if i == 1 {
            spec_json_field(fields[0])
        } else {
            spec_json_fields(fields.take(i - 1)) + seq![','] + spec_json_field(fields[i - 1])
        },
    decreases i,
{
    if i == 1 {
        assert(fields.take(1).len() == 1);
        assert(fields.take(1)[0] == fields[0]);
    } else {
        lemma_json_fields_take(fields.drop_first(), i - 1);
        assert(fields.take(i).drop_first() =~= fields.drop_first().take(i - 1));
        assert(fields.take(i)[0] == fields[0]);
        assert(fields.take(i - 1).drop_first() =~= fields.drop_first().take(i - 2));
        assert(fields.take(i - 1)[0] == fields[0]);
        assert(fields.drop_first()[i - 2] == fields[i - 1]);
        if i - 1 == 1 {
            assert(fields.take(i - 1).len() == 1);
            assert(spec_json_fields(fields.take(i - 1)) == spec_json_field(fields[0]));
            assert(spec_json_fields(fields.take(i)) == spec_json_field(fields[0]) + seq![',']
                + spec_json_fields(fields.drop_first().take(i - 1)));
            assert(fields.drop_first().take(1)[0] == fields[1]);
            assert(spec_json_fields(fields.drop_first().take(i - 1)) == spec_json_field(fields[1]));
        } else {
            assert(spec_json_fields(fields.take(i)) == spec_json_field(fields[0]) + seq![',']
                + spec_json_fields(fields.drop_first().take(i - 1)));
            assert(spec_json_fields(fields.take(i - 1)) == spec_json_field(fields[0]) + seq![',']
                + spec_json_fields(fields.drop_first().take(i - 2)));
        }
        assert(spec_json_fields(fields.take(i)) =~= spec_json_fields(fields.take(i - 1)) + seq![',']
            + spec_json_field(fields[i - 1]));
    }
}

/// Render a value as plain text: strings verbatim, everything else as JSON.
pub fn text_value_chars(v: &JsonValue) -> (out: Vec<char>)
    ensures
        out@ == spec_text_value(*v),
{
    match v {
        JsonValue::Str(s) => chars_of(s.as_str()),
        _ => json_text_chars(v),
    }
}

/// Render a value as plain text into a `String`.
pub fn text_value(val: &JsonValue) -> (out: String)
    ensures
        out@ == spec_text_value(*val),
{
    let chars = text_value_chars(val);
    string_of(&chars)
}

} // verus!

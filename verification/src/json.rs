//! JSON documents as the daemon reads them, parsed and quoted by serde_json.

use vstd::prelude::*;
use crate::text::str_eq;

verus! {

/// `serde_json::Value`, only carried from the parser into `JsonValue`.
#[verifier::external_type_specification]
#[verifier::external_body]
pub struct ExJsonValue(serde_json::Value);

/// A parsed JSON document.
///
/// A number is held as the value serde_json's `as_u64` reads from it: `Some`
/// for an integer in `0..=u64::MAX`, `None` for a negative or fractional one.
/// An object holds its members in the order serde_json's map yields them,
/// each key once.
#[derive(Debug)]
pub enum JsonValue {
    Null,
    Bool(bool),
    Number(Option<u64>),
    Str(String),
    Array(Vec<JsonValue>),
    Object(Vec<(String, JsonValue)>),
}

/// What `serde_json::from_str::<serde_json::Value>` gives for `text`: the
/// document, or the text of its error.
pub uninterp spec fn json_parse(text: Seq<char>) -> Result<JsonValue, Seq<char>>;

/// The hexadecimal digit for `d` in `0..16`, in lower case.
pub open spec fn hex_digit(d: int) -> char {
    seq!['0', '1', '2', '3', '4', '5', '6', '7', '8', '9', 'a', 'b', 'c', 'd', 'e', 'f'][d]
}

/// How serde_json writes the character `c` inside a JSON string: `"` and
/// `\` behind a backslash; backspace, tab, line feed, form feed and carriage
/// return as `\b`, `\t`, `\n`, `\f`, `\r`; any other character below
/// U+0020 as `\u00` and two lower-case hex digits; everything else as it is.
pub open spec fn json_char_escape(c: char) -> Seq<char> {
    if c == '"' {
        seq!['\\', '"']
    } else if c == '\\' {
        seq!['\\', '\\']
    } else if c == '\u{8}' {
        seq!['\\', 'b']
    } else if c == '\t' {
        seq!['\\', 't']
    } else if c == '\n' {
        seq!['\\', 'n']
    } else if c == '\u{c}' {
        seq!['\\', 'f']
    } else if c == '\r' {
        seq!['\\', 'r']
    } else if (c as u32) < 0x20 {
        seq!['\\', 'u', '0', '0', hex_digit((c as u32) as int / 16), hex_digit((c as u32) as int % 16)]
    } else {
        seq![c]
    }
}

/// The characters of `s`, each escaped as `json_char_escape` says.
pub open spec fn json_escaped(s: Seq<char>) -> Seq<char>
    decreases s.len(),
{
    if s.len() == 0 {
        Seq::empty()
    } else {
        json_char_escape(s[0]) + json_escaped(s.skip(1))
    }
}

/// `s` as the JSON string literal serde_json writes: escaped, in quotes.
pub open spec fn json_quoted(s: Seq<char>) -> Seq<char> {
    seq!['"'] + json_escaped(s) + seq!['"']
}

/// The view of a parse result: the document, or the error's characters.
pub open spec fn parse_view(r: Result<JsonValue, String>) -> Result<JsonValue, Seq<char>> {
    match r {
        Ok(v) => Ok(v),
        Err(m) => Err(m@),
    }
}

/// The value of the hexadecimal digit `c`, in either case; nothing if `c`
/// is not one.
pub open spec fn hex_value(c: char) -> Option<int> {
    let u = c as u32;
    if 0x30 <= u <= 0x39 {
        Some(u - 0x30)
    } else if 0x61 <= u <= 0x66 {
        Some(u - 0x61 + 10)
    } else if 0x41 <= u <= 0x46 {
        Some(u - 0x41 + 10)
    } else {
        None
    }
}

/// The character a one-letter JSON escape `\e` stands for.
pub open spec fn short_escape(e: char) -> Option<char> {
    if e == '"' {
        Some('"')
    } else if e == '\\' {
        Some('\\')
    } else if e == '/' {
        Some('/')
    } else if e == 'b' {
        Some('\u{8}')
    } else if e == 'f' {
        Some('\u{c}')
    } else if e == 'n' {
        Some('\n')
    } else if e == 'r' {
        Some('\r')
    } else if e == 't' {
        Some('\t')
    } else {
        None
    }
}

/// The character the four hex digits `h` of a `\u` escape stand for; this
/// reader refuses an escaped UTF-16 surrogate rather than pair it.
pub open spec fn unicode_escape(h: Seq<char>) -> Option<char> {
    match (hex_value(h[0]), hex_value(h[1]), hex_value(h[2]), hex_value(h[3])) {
        (Some(a), Some(b), Some(c), Some(d)) => {
            let v = a * 4096 + b * 256 + c * 16 + d;
            if 0xD800 <= v <= 0xDFFF {
                None
            } else {
                Some((v as u32) as char)
            }
        },
        _ => None,
    }
}

/// `c` put in front of what a read gave.
pub open spec fn read_prepend(c: char, r: Option<(Seq<char>, Seq<char>)>) -> Option<(Seq<char>, Seq<char>)> {
    match r {
        Some((v, rest)) => Some((seq![c] + v, rest)),
        None => None,
    }
}

/// Reads a JSON string (RFC 8259, section 7) from just after its opening
/// quote: the characters it stands for, and the text after its closing
/// quote; nothing when `t` does not start with a well-formed string body.
pub open spec fn read_json_string(t: Seq<char>) -> Option<(Seq<char>, Seq<char>)>
    decreases t.len(),
{
    if t.len() == 0 {
        None
    } else if t[0] == '"' {
        Some((Seq::empty(), t.skip(1)))
    } else if (t[0] as u32) < 0x20 {
        None
    } else if t[0] == '\\' {
        if t.len() < 2 {
            None
        } else if short_escape(t[1]) is Some {
            read_prepend(short_escape(t[1])->0, read_json_string(t.skip(2)))
        } else if t[1] == 'u' && t.len() >= 6 && unicode_escape(t.subrange(2, 6)) is Some {
            read_prepend(unicode_escape(t.subrange(2, 6))->0, read_json_string(t.skip(6)))
        } else {
            None
        }
    } else {
        read_prepend(t[0], read_json_string(t.skip(1)))
    }
}

/// Converts a `serde_json::Value` into the library's `JsonValue`, member by
/// member; numbers through `Number::as_u64`.
#[verifier::external_body]
fn json_value_of(v: &serde_json::Value) -> JsonValue {
    match v {
        serde_json::Value::Null => JsonValue::Null,
        serde_json::Value::Bool(b) => JsonValue::Bool(*b),
        serde_json::Value::Number(n) => JsonValue::Number(n.as_u64()),
        serde_json::Value::String(s) => JsonValue::Str(s.clone()),
        serde_json::Value::Array(a) => JsonValue::Array(a.iter().map(json_value_of).collect()),
        serde_json::Value::Object(m) => JsonValue::Object(
            m.iter().map(|(k, x)| (k.clone(), json_value_of(x))).collect(),
        ),
    }
}

/// Calls `serde_json::from_str::<serde_json::Value>` on `text`; the document
/// comes back as a `JsonValue`, an error as its `Display` text. The result is
/// named `json_parse(text@)`.
#[verifier::external_body]
pub fn parse_json(text: &str) -> (r: Result<JsonValue, String>)
    ensures
        parse_view(r) == json_parse(text@),
{
    match serde_json::from_str::<serde_json::Value>(text) {
        Ok(v) => Ok(json_value_of(&v)),
        Err(e) => Err(e.to_string()),
    }
}

/// Calls `serde_json::to_string` on the string `s`, which writes it as a
/// quoted JSON string, escaped character by character (`format_escaped_str`
/// with its `ESCAPE` table and `write_char_escape`). Serialising a `str` into
/// memory cannot fail, so the `Err` arm is never taken.
#[verifier::external_body]
pub fn quote_json(s: &str) -> (r: String)
    ensures
        r@ == json_quoted(s@),
{
    match serde_json::to_string(s) {
        Ok(t) => t,
        Err(_) => String::new(),
    }
}

/// The member named `key` among `fields`, the first one if several are.
pub open spec fn member(fields: Seq<(String, JsonValue)>, key: Seq<char>) -> Option<JsonValue>
    decreases fields.len(),
{
    if fields.len() == 0 {
        None
    } else if fields[0].0@ == key {
        Some(fields[0].1)
    } else {
        member(fields.skip(1), key)
    }
}

/// `v[key]` in serde_json's sense: the member of an object, nothing for any
/// other value.
pub open spec fn json_get(v: JsonValue, key: Seq<char>) -> Option<JsonValue> {
    match v {
        JsonValue::Object(fields) => member(fields@, key),
        _ => None,
    }
}

/// Looks up `key` among the members of `v`.
pub fn get<'a>(v: &'a JsonValue, key: &str) -> (r: Option<&'a JsonValue>)
    ensures
        match r {
            Some(x) => json_get(*v, key@) == Some(*x),
            None => json_get(*v, key@) is None,
        },
{
    match v {
        JsonValue::Object(fields) => {
            let mut i: usize = 0;
            assert(fields@.skip(0) == fields@);
            while i < fields.len()
                invariant
                    *v == JsonValue::Object(*fields),
                    i <= fields@.len(),
                    member(fields@, key@) == member(fields@.skip(i as int), key@),
                decreases fields.len() - i,
            {
                assert(fields@.skip(i as int)[0] == fields@[i as int]);
                assert(fields@.skip(i as int).skip(1) == fields@.skip(i + 1));
                if str_eq(fields[i].0.as_str(), key) {
                    assert(fields@.skip(i as int).len() > 0);
                    assert(fields@.skip(i as int)[0].0@ == key@);
                    return Some(&fields[i].1);
                }
                i = i + 1;
            }
            None
        },
        _ => None,
    }
}

} // verus!

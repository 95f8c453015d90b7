use vstd::prelude::*;
use serde_json::{Error, Value};

verus! {

#[verifier::external_type_specification]
#[verifier::external_body]
pub struct ExValue(Value);

#[verifier::external_type_specification]
#[verifier::external_body]
pub struct ExError(Error);

/// What a JSON value holds as a collection of members: the member stored
/// under `key` where the value is an object holding that key, and nothing
/// for any other key or any other kind of value.
pub uninterp spec fn json_member_value(v: Value, key: Seq<char>) -> Option<Value>;

/// The second thing the contracts need of a value: the string it holds,
/// where it is a JSON string (what `Value::as_str` finds).
pub uninterp spec fn json_string_value(v: Value) -> Option<Seq<char>>;

/// The value that `serde_json::from_str::<Value>` makes of a text: `None`
/// where serde_json refuses the text (no JSON document, trailing
/// characters, or nesting past its recursion limit).
pub uninterp spec fn json_parsed(text: Seq<char>) -> Option<Value>;

/// The lowercase hexadecimal digit for `d < 16`.
pub open spec fn hex_digit(d: nat) -> char {
    if d < 10 {
        ((48 + d) as u32) as char
    } else {
        ((87 + d) as u32) as char
    }
}

/// How serde_json writes one character inside a JSON string: the quote and
/// the backslash behind a backslash; backspace, form feed, line feed,
/// carriage return and tab as `\b \f \n \r \t`; the other characters below
/// U+0020 as `\u00` and two lowercase hexadecimal digits; every other
/// character as it is.
pub open spec fn json_char_text(c: char) -> Seq<char> {
    let u = c as u32;
    if c == '"' {
        seq!['\\', '"']
    } else if c == '\\' {
        seq!['\\', '\\']
    } else if u == 8 {
        seq!['\\', 'b']
    } else if u == 12 {
        seq!['\\', 'f']
    } else if c == '\n' {
        seq!['\\', 'n']
    } else if c == '\r' {
        seq!['\\', 'r']
    } else if c == '\t' {
        seq!['\\', 't']
    } else if u < 32 {
        seq!['\\', 'u', '0', '0', hex_digit((u / 16) as nat), hex_digit((u % 16) as nat)]
    } else {
        seq![c]
    }
}

/// The characters of a string, each written as inside a JSON string.
pub open spec fn json_escaped(s: Seq<char>) -> Seq<char>
    decreases s.len(),
{
    if s.len() == 0 {
        Seq::empty()
    } else {
        json_escaped(s.drop_last()) + json_char_text(s.last())
    }
}

/// The JSON string literal of a string: quotes around its escaped
/// characters.
pub open spec fn json_string_text(s: Seq<char>) -> Seq<char> {
    seq!['"'] + json_escaped(s) + seq!['"']
}

/// `serde_json::from_str::<Value>`. The parse is a function of the text
/// alone; the contract claims that it succeeds exactly where the name
/// `json_parsed` has a value, and gives that value.
#[verifier::external_body]
pub fn parse_json(text: &str) -> (r: Result<Value, Error>)
    ensures
        r is Ok <==> json_parsed(text@) is Some,
        r matches Ok(v) ==> json_parsed(text@) == Some(v),
{
    serde_json::from_str::<Value>(text)
}

/// `Value::get` with a string index, followed by a clone of what it finds:
/// the member stored under `key`.
#[verifier::external_body]
pub fn json_member(v: &Value, key: &str) -> (r: Option<Value>)
    ensures
        r == json_member_value(*v, key@),
{
    v.get(key).cloned()
}

/// `serde_json::to_string` of a string slice. serde_json writes a quote,
/// each character as its escape table says (`json_char_text`), and a quote,
/// into a `Vec<u8>`, which never fails; the contract claims that text.
#[verifier::external_body]
pub fn json_quote(s: &str) -> (r: Result<String, Error>)
    ensures
        r is Ok,
        r matches Ok(t) ==> t@ == json_string_text(s@),
{
    serde_json::to_string(s)
}

/// `Value::as_str`, with the string it finds copied out.
#[verifier::external_body]
pub fn json_as_string(v: &Value) -> (r: Option<String>)
    ensures
        r is Some <==> json_string_value(*v) is Some,
        r matches Some(t) ==> t@ == json_string_value(*v)->0,
{
    v.as_str().map(|t| t.to_string())
}

} // verus!

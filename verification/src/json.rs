//! JSON values (serde_json) as the library stores them: opaque values that
//! are parsed from and printed to the text kept in the database.

use vstd::prelude::*;

use crate::text::views;

verus! {

/// serde_json's value type, carried opaquely.
#[verifier::external_type_specification]
#[verifier::external_body]
pub struct ExJsonValue(serde_json::Value);

/// serde_json `from_str` into a `Value`; `None` when the text is not JSON.
/// What a parse yields is serde_json's business, so nothing is stated of it.
#[verifier::external_body]
pub fn json_parse(s: &str) -> Option<serde_json::Value> {
    serde_json::from_str(s).ok()
}

/// The compact JSON text of a value (serde_json's `Display`, via `to_string`).
#[verifier::external_body]
pub fn json_text(v: &serde_json::Value) -> String {
    v.to_string()
}

/// serde_json `Value::String` holding `s`.
#[verifier::external_body]
pub fn json_string(s: String) -> serde_json::Value {
    serde_json::Value::String(s)
}

/// serde_json `Value::Null`.
#[verifier::external_body]
pub fn json_null() -> serde_json::Value {
    serde_json::Value::Null
}

/// serde_json number value holding `n` (`Value::from`).
#[verifier::external_body]
pub fn json_int(n: i64) -> serde_json::Value {
    serde_json::Value::from(n)
}

/// serde_json object value with the single member `key: value`.
#[verifier::external_body]
pub fn json_object1(key: &str, value: serde_json::Value) -> serde_json::Value {
    let mut m = serde_json::Map::new();
    m.insert(key.to_string(), value);
    serde_json::Value::Object(m)
}

/// serde_json's `Clone` for `Value`: a deep copy. The copy is not stated
/// equal to its source, since `Value` is opaque here.
pub assume_specification[<serde_json::Value as std::clone::Clone>::clone](v: &serde_json::Value) -> serde_json::Value;

/// A lowercase hexadecimal digit.
pub open spec fn hex_digit(n: int) -> char {
    seq!['0', '1', '2', '3', '4', '5', '6', '7', '8', '9', 'a', 'b', 'c', 'd', 'e', 'f'][n]
}

/// One character inside a JSON string as serde_json writes it: quote and
/// backslash escaped, the control characters with a short escape where JSON
/// has one and as `\u00XX` otherwise, everything else as it is.
pub open spec fn json_char(c: char) -> Seq<char> {
    let n = c as int;
    if c == '"' {
        seq!['\\', '"']
    } else if c == '\\' {
        seq!['\\', '\\']
    } else if n == 8 {
        seq!['\\', 'b']
    } else if n == 9 {
        seq!['\\', 't']
    } else if n == 10 {
        seq!['\\', 'n']
    } else if n == 12 {
        seq!['\\', 'f']
    } else if n == 13 {
        seq!['\\', 'r']
    } else if n < 32 {
        seq!['\\', 'u', '0', '0', hex_digit(n / 16), hex_digit(n % 16)]
    } else {
        seq![c]
    }
}

/// The escaped characters of a string.
pub open spec fn json_escape(s: Seq<char>) -> Seq<char>
    decreases s.len(),
{
    if s.len() == 0 {
        Seq::empty()
    } else {
        json_escape(s.drop_last()) + json_char(s.last())
    }
}

/// A JSON string: the escaped characters between quotes.
pub open spec fn json_string_text(s: Seq<char>) -> Seq<char> {
    seq!['"'] + json_escape(s) + seq!['"']
}

/// The compact JSON text serde_json writes for a list of strings: the JSON
/// strings separated by commas, between brackets.
pub open spec fn string_list_json(items: Seq<Seq<char>>) -> Seq<char> {
    seq!['['] + crate::text::join(items.map_values(|s: Seq<char>| json_string_text(s)), seq![',']) + seq![']']
}

/// What serde_json reads from a text as a list of strings; the empty list when
/// the text is not a JSON array of strings. A function of the characters alone.
pub uninterp spec fn string_list_of_json(s: Seq<char>) -> Seq<Seq<char>>;

/// serde_json `to_string` of a list of strings (the compact formatter and
/// its string escapes, `ser.rs`). Serialising strings cannot fail, so the
/// `Result` is unwrapped. serde_json reads its own output back as the same
/// list, which is stated beside the text.
#[verifier::external_body]
pub fn json_string_list(items: &[String]) -> (res: String)
    ensures
        res@ == string_list_json(views(items@)),
        string_list_of_json(res@) == views(items@),
{
    serde_json::to_string(items).unwrap()
}

/// serde_json `from_str` into a list of strings; the empty list when the text
/// is not a JSON array of strings (`unwrap_or_default`).
#[verifier::external_body]
pub fn json_parse_string_list(s: &str) -> (res: Vec<String>)
    ensures
        views(res@) == string_list_of_json(s@),
{
    serde_json::from_str(s).unwrap_or_default()
}

} // verus!

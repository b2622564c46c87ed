//! JSON values, each held as its compact text.
//!
//! Parsing and rendering are serde_json's. What each of its functions returns
//! is stated or named here, and the rest of the library speaks of that.
use crate::digest::hex_digit;
use crate::strings::{join, opt_text, texts};
use vstd::prelude::*;
use vstd::string::*;

verus! {

/// The compact form of the value a text holds, or what is wrong with the text.
pub uninterp spec fn json_value(text: Seq<char>) -> Result<Seq<char>, Seq<char>>;

/// What an object holds under a key.
pub uninterp spec fn json_member(json: Seq<char>, key: Seq<char>) -> Option<Seq<char>>;

/// The text a string holds.
pub uninterp spec fn json_text(json: Seq<char>) -> Option<Seq<char>>;

/// The number an unsigned integer is.
pub uninterp spec fn json_number(json: Seq<char>) -> Option<u64>;

/// The truth value a boolean is.
pub uninterp spec fn json_flag(json: Seq<char>) -> Option<bool>;

/// The elements of an array.
pub uninterp spec fn json_items(json: Seq<char>) -> Option<Seq<Seq<char>>>;

/// An object of keys and values.
pub uninterp spec fn json_object(fields: Seq<(Seq<char>, Seq<char>)>) -> Seq<char>;

/// How a character stands inside a string value: quotes and backslashes behind a
/// backslash, and control characters by their letter or by their number.
pub open spec fn json_escape(c: char) -> Seq<char> {
    if c == '"' || c == '\\' {
        seq!['\\', c]
    } else if c as u32 == 8 {
        seq!['\\', 'b']
    } else if c == '\t' {
        seq!['\\', 't']
    } else if c == '\n' {
        seq!['\\', 'n']
    } else if c as u32 == 12 {
        seq!['\\', 'f']
    } else if c == '\r' {
        seq!['\\', 'r']
    } else if (c as u32) < 32 {
        seq!['\\', 'u', '0', '0', hex_digit(c as int / 16), hex_digit(c as int % 16)]
    } else {
        seq![c]
    }
}

/// A text as a string value.
pub open spec fn json_quoted(text: Seq<char>) -> Seq<char> {
    seq!['"'] + text.map_values(|c: char| json_escape(c)).flatten() + seq!['"']
}

/// The compact form of the value a text holds, or that of null where it holds
/// none.
pub open spec fn json_or_null(text: Seq<char>) -> Seq<char> {
    match json_value(text) {
        Ok(json) => json,
        Err(_) => "null"@,
    }
}

/// An array of values.
pub open spec fn json_list(items: Seq<Seq<char>>) -> Seq<char> {
    seq!['['] + join(items.map_values(|item: Seq<char>| json_or_null(item)), seq![',']) + seq![']']
}

/// `serde_json::from_str`: the value a text holds, in its compact form, or the
/// message of the error. Both depend on the text alone.
#[verifier::external_body]
pub(crate) fn parse(text: &str) -> (r: Result<String, String>)
    ensures
        match r {
            Ok(json) => json_value(text@) == Ok::<Seq<char>, Seq<char>>(json@),
            Err(e) => json_value(text@) == Err::<Seq<char>, Seq<char>>(e@),
        },
{
    match serde_json::from_str::<serde_json::Value>(text) {
        Ok(value) => Ok(value.to_string()),
        Err(e) => Err(e.to_string()),
    }
}

/// `serde_json::Value::get`: what an object holds under a key, if it is an
/// object and holds anything there.
#[verifier::external_body]
pub(crate) fn member(json: &str, key: &str) -> (r: Option<String>)
    ensures
        opt_text(r) == json_member(json@, key@),
{
    let value: serde_json::Value = serde_json::from_str(json).ok()?;
    value.get(key).map(|held| held.to_string())
}

/// `serde_json::Value::as_str`: the text a value holds, if it is a string.
#[verifier::external_body]
pub(crate) fn text_in(json: &str) -> (r: Option<String>)
    ensures
        opt_text(r) == json_text(json@),
{
    let value: serde_json::Value = serde_json::from_str(json).ok()?;
    value.as_str().map(|text| text.to_string())
}

/// `serde_json::Value::as_u64`: the number a value is, if it is an unsigned
/// integer of at most 64 bits.
#[verifier::external_body]
pub(crate) fn number_in(json: &str) -> (r: Option<u64>)
    ensures
        r == json_number(json@),
{
    let value: serde_json::Value = serde_json::from_str(json).ok()?;
    value.as_u64()
}

/// `serde_json::Value::as_bool`: the truth value a value is, if it is a
/// boolean.
#[verifier::external_body]
pub(crate) fn flag_in(json: &str) -> (r: Option<bool>)
    ensures
        r == json_flag(json@),
{
    let value: serde_json::Value = serde_json::from_str(json).ok()?;
    value.as_bool()
}

/// `serde_json::Value::as_array`: the elements of a value in order, if it is an
/// array.
#[verifier::external_body]
pub(crate) fn items_in(json: &str) -> (r: Option<Vec<String>>)
    ensures
        match r {
            Some(items) => json_items(json@) == Some(texts(items@)),
            None => json_items(json@) is None,
        },
{
    let value: serde_json::Value = serde_json::from_str(json).ok()?;
    let items: &Vec<serde_json::Value> = value.as_array()?;
    Some(items.iter().map(|item| item.to_string()).collect())
}

/// `serde_json::Value::String`, rendered: a text between quotes, its quotes,
/// backslashes and control characters escaped, and everything else as it is.
#[verifier::external_body]
pub(crate) fn quoted(text: &str) -> (r: String)
    ensures
        r@ == json_quoted(text@),
{
    serde_json::Value::String(text.to_string()).to_string()
}

/// `serde_json::Value::Object`, rendered: an object of keys and values. A value
/// that is no JSON is rendered as null.
#[verifier::external_body]
pub(crate) fn object(fields: &Vec<(String, String)>) -> (r: String)
    ensures
        r@ == json_object(crate::git::pairs(fields@)),
{
    let mut map = serde_json::Map::new();
    for (key, json) in fields {
        map.insert(key.clone(), serde_json::from_str(json).unwrap_or(serde_json::Value::Null));
    }
    serde_json::Value::Object(map).to_string()
}

/// `serde_json::Value::Array`, rendered: the values in their compact form, with
/// commas between them and brackets around them. A value that is no JSON is
/// rendered as null.
#[verifier::external_body]
pub(crate) fn list(items: &Vec<String>) -> (r: String)
    ensures
        r@ == json_list(texts(items@)),
{
    let mut all = Vec::new();
    for json in items {
        all.push(serde_json::from_str(json).unwrap_or(serde_json::Value::Null));
    }
    serde_json::Value::Array(all).to_string()
}

/// What an object holds under a key as a string.
pub open spec fn text_member(json: Seq<char>, key: Seq<char>) -> Option<Seq<char>> {
    match json_member(json, key) {
        Some(held) => json_text(held),
        None => None,
    }
}

/// What an object holds under a key as an unsigned integer.
pub open spec fn number_member(json: Seq<char>, key: Seq<char>) -> Option<u64> {
    match json_member(json, key) {
        Some(held) => json_number(held),
        None => None,
    }
}

/// What an object holds under a key as an array.
pub open spec fn items_member(json: Seq<char>, key: Seq<char>) -> Option<Seq<Seq<char>>> {
    match json_member(json, key) {
        Some(held) => json_items(held),
        None => None,
    }
}

/// What an object holds under a key as a string.
pub fn text_at(json: &str, key: &str) -> (r: Option<String>)
    ensures
        opt_text(r) == text_member(json@, key@),
{
    match member(json, key) {
        Some(held) => text_in(held.as_str()),
        None => None,
    }
}

/// What an object holds under a key as an unsigned integer.
pub fn number_at(json: &str, key: &str) -> (r: Option<u64>)
    ensures
        r == number_member(json@, key@),
{
    match member(json, key) {
        Some(held) => number_in(held.as_str()),
        None => None,
    }
}

/// What an object holds under a key as an array.
pub fn items_at(json: &str, key: &str) -> (r: Option<Vec<String>>)
    ensures
        match r {
            Some(items) => items_member(json@, key@) == Some(texts(items@)),
            None => items_member(json@, key@) is None,
        },
{
    match member(json, key) {
        Some(held) => items_in(held.as_str()),
        None => None,
    }
}

} // verus!

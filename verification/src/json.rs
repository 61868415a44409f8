//! Trusted access to serde_json, text in and plain values out. Each reader
//! parses a JSON text and extracts one aspect of it; the uninterpreted
//! functions name what it extracts, so that verified contracts can speak of
//! a body's fields. serde_json's parsing, and its rendering of numbers and
//! nested values back to JSON text, are deterministic functions of the text,
//! which is what naming their results claims.

use vstd::prelude::*;

verus! {

/// Whether the text parses as JSON (a text nested beyond serde_json's
/// recursion limit counts as ill-formed).
pub uninterp spec fn json_wellformed(s: Seq<char>) -> bool;

/// The elements of a JSON array text, each rendered back to JSON text;
/// nothing when the text is not a JSON array.
pub uninterp spec fn json_array_items(s: Seq<char>) -> Option<Seq<Seq<char>>>;

/// The elements of the array under `key` of a JSON object text, each
/// rendered back to JSON text; nothing when the text is not an object or the
/// key does not hold an array.
pub uninterp spec fn json_array_field(s: Seq<char>, key: Seq<char>) -> Option<Seq<Seq<char>>>;

/// Whether the JSON object text has the key.
pub uninterp spec fn json_has_field(s: Seq<char>, key: Seq<char>) -> bool;

/// Whether the JSON object text holds `null` under the key.
pub uninterp spec fn json_field_is_null(s: Seq<char>, key: Seq<char>) -> bool;

/// The string under `key` of a JSON object text, when it holds one.
pub uninterp spec fn json_str_field(s: Seq<char>, key: Seq<char>) -> Option<Seq<char>>;

/// The unsigned integer under `key` of a JSON object text, when it holds one.
pub uninterp spec fn json_u64_field(s: Seq<char>, key: Seq<char>) -> Option<u64>;

/// The signed integer under `key` of a JSON object text, when it holds one.
pub uninterp spec fn json_i64_field(s: Seq<char>, key: Seq<char>) -> Option<i64>;

/// The decimal rendering of the number under `key` of a JSON object text,
/// when the key holds a number.
pub uninterp spec fn json_number_field(s: Seq<char>, key: Seq<char>) -> Option<Seq<char>>;

/// The entries of the object under `key` of a JSON object text, in object
/// order, each value as a string when it is one; nothing when the key is
/// absent or does not hold an object.
pub uninterp spec fn json_object_field_entries(s: Seq<char>, key: Seq<char>) -> Option<
    Seq<(Seq<char>, Option<Seq<char>>)>,
>;

/// Relies on `serde_json::from_str::<Value>`: the text parses exactly when
/// it is well-formed JSON.
#[verifier::external_body]
pub fn parse_wellformed(s: &str) -> (r: bool)
    ensures
        r == json_wellformed(s@),
{
    serde_json::from_str::<serde_json::Value>(s).is_ok()
}

/// Relies on `serde_json::from_str`, `Value::as_array` and `Value`'s
/// `Display`: the elements of a JSON array text, rendered back to JSON text.
#[verifier::external_body]
pub fn parse_array_items(s: &str) -> (r: Option<Vec<String>>)
    ensures
        r matches Some(v) ==> json_array_items(s@) == Some(v.deep_view()),
        r is None ==> json_array_items(s@) is None,
{
    let v: serde_json::Value = serde_json::from_str(s).ok()?;
    Some(v.as_array()?.iter().map(|x| x.to_string()).collect())
}

/// Relies on `serde_json::from_str`, `Value::get`, `Value::as_array` and
/// `Value`'s `Display`: the elements of the array under `key`.
#[verifier::external_body]
pub fn parse_array_field(s: &str, key: &str) -> (r: Option<Vec<String>>)
    ensures
        r matches Some(v) ==> json_array_field(s@, key@) == Some(v.deep_view()),
        r is None ==> json_array_field(s@, key@) is None,
{
    let v: serde_json::Value = serde_json::from_str(s).ok()?;
    Some(v.get(key)?.as_array()?.iter().map(|x| x.to_string()).collect())
}

/// Relies on `serde_json::from_str` and `Value::get`: whether the object
/// text has the key.
#[verifier::external_body]
pub fn parse_has_field(s: &str, key: &str) -> (r: bool)
    ensures
        r == json_has_field(s@, key@),
{
    match serde_json::from_str::<serde_json::Value>(s) {
        Ok(v) => v.get(key).is_some(),
        Err(_) => false,
    }
}

/// Relies on `serde_json::from_str`, `Value::get` and `Value::is_null`:
/// whether the object text holds `null` under the key.
#[verifier::external_body]
pub fn parse_field_is_null(s: &str, key: &str) -> (r: bool)
    ensures
        r == json_field_is_null(s@, key@),
{
    match serde_json::from_str::<serde_json::Value>(s) {
        Ok(v) => v.get(key).map(|f| f.is_null()).unwrap_or(false),
        Err(_) => false,
    }
}

/// Relies on `serde_json::from_str`, `Value::get` and `Value::as_str`: the
/// string under the key.
#[verifier::external_body]
pub fn parse_str_field(s: &str, key: &str) -> (r: Option<String>)
    ensures
        r matches Some(t) ==> json_str_field(s@, key@) == Some(t@),
        r is None ==> json_str_field(s@, key@) is None,
{
    let v: serde_json::Value = serde_json::from_str(s).ok()?;
    v.get(key)?.as_str().map(str::to_owned)
}

/// Relies on `serde_json::from_str`, `Value::get` and `Value::as_u64`: the
/// unsigned integer under the key.
#[verifier::external_body]
pub fn parse_u64_field(s: &str, key: &str) -> (r: Option<u64>)
    ensures
        r == json_u64_field(s@, key@),
{
    let v: serde_json::Value = serde_json::from_str(s).ok()?;
    v.get(key)?.as_u64()
}

/// Relies on `serde_json::from_str`, `Value::get` and `Value::as_i64`: the
/// signed integer under the key.
#[verifier::external_body]
pub fn parse_i64_field(s: &str, key: &str) -> (r: Option<i64>)
    ensures
        r == json_i64_field(s@, key@),
{
    let v: serde_json::Value = serde_json::from_str(s).ok()?;
    v.get(key)?.as_i64()
}

/// Relies on `serde_json::from_str`, `Value::get` and `Number`'s `Display`:
/// the decimal rendering of the number under the key.
#[verifier::external_body]
pub fn parse_number_field(s: &str, key: &str) -> (r: Option<String>)
    ensures
        r matches Some(t) ==> json_number_field(s@, key@) == Some(t@),
        r is None ==> json_number_field(s@, key@) is None,
{
    let v: serde_json::Value = serde_json::from_str(s).ok()?;
    match v.get(key)? {
        serde_json::Value::Number(n) => Some(n.to_string()),
        _ => None,
    }
}

/// Relies on `serde_json::from_str`, `Value::get`, `Value::as_object` and
/// `Value::as_str`: the entries of the object under the key, in object
/// order, each value as a string when it is one.
#[verifier::external_body]
pub fn parse_object_field_entries(s: &str, key: &str) -> (r: Option<Vec<(String, Option<String>)>>)
    ensures
        r matches Some(v) ==> json_object_field_entries(s@, key@) == Some(v.deep_view()),
        r is None ==> json_object_field_entries(s@, key@) is None,
{
    let v: serde_json::Value = serde_json::from_str(s).ok()?;
    let entries = v.get(key)?.as_object()?;
    Some(entries.iter().map(|(k, w)| (k.clone(), w.as_str().map(str::to_owned))).collect())
}

} // verus!

//! Trusted boundary to serde_json: the JSON value type is declared opaque,
//! and each provider-payload access the adapter needs goes through one thin
//! wrapper. What the payload means is decided by verified code in the
//! provider adapter, which reads plain values out of these wrappers.
use vstd::prelude::*;

verus! {

#[verifier::external_type_specification]
#[verifier::external_body]
pub struct ExValue(serde_json::Value);

#[verifier::external_type_specification]
#[verifier::external_body]
pub struct ExJsonError(serde_json::Error);

/// Name for which texts parse as one JSON document: a function of the
/// text alone.
pub uninterp spec fn json_ok(s: Seq<char>) -> bool;

/// Relies on serde_json::from_str::<Value>: parses one JSON document, or
/// reports a syntax error. Whether it succeeds is decided by the text
/// alone.
#[verifier::external_body]
pub fn parse_json(s: &str) -> (r: Result<serde_json::Value, serde_json::Error>)
    ensures
        r is Ok <==> json_ok(s@),
{
    serde_json::from_str::<serde_json::Value>(s)
}

/// Relies on serde_json::Error's display form: a human-readable description.
#[verifier::external_body]
pub fn json_error_text(e: &serde_json::Error) -> String {
    format!("{}", e)
}

/// Relies on serde_json::Value::get: the member of an object under a key,
/// when the value is an object that has it.
#[verifier::external_body]
pub fn json_get<'a>(v: &'a serde_json::Value, key: &str) -> Option<&'a serde_json::Value> {
    v.get(key)
}

/// Relies on serde_json::Value::as_i64: the value as a signed integer, when
/// it is an integral number in range.
#[verifier::external_body]
pub fn json_as_i64(v: &serde_json::Value) -> Option<i64> {
    v.as_i64()
}

/// Relies on serde_json::Value::as_str: the value's text, when it is a
/// string; handed out as an owned copy.
#[verifier::external_body]
pub fn json_as_string(v: &serde_json::Value) -> Option<String> {
    match v.as_str() {
        Some(s) => Some(s.to_string()),
        None => None,
    }
}

/// Relies on serde_json::Value::as_array: the value's elements, when it is
/// an array.
#[verifier::external_body]
pub fn json_as_array<'a>(v: &'a serde_json::Value) -> Option<&'a Vec<serde_json::Value>> {
    v.as_array()
}

/// The object member under a key as an integer.
pub fn field_i64(v: &serde_json::Value, key: &str) -> Option<i64> {
    match json_get(v, key) {
        Some(x) => json_as_i64(x),
        None => None,
    }
}

/// The object member under a key as an owned string.
pub fn field_string(v: &serde_json::Value, key: &str) -> Option<String> {
    match json_get(v, key) {
        Some(x) => json_as_string(x),
        None => None,
    }
}

/// The object member two keys deep, as an owned string.
pub fn field2_string(v: &serde_json::Value, key1: &str, key2: &str) -> Option<String> {
    match json_get(v, key1) {
        Some(x) => field_string(x, key2),
        None => None,
    }
}

} // verus!

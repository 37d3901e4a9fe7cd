//! The untyped boundary to remote JSON payloads.
//!
//! Remote responses arrive as dynamic JSON values. This module declares the
//! value type and puts each access the library makes behind one small
//! trusted function. Nothing is promised of what comes back: every caller
//! is verified for all possible outcomes, and the typed translation
//! functions in [`crate::ingest`] carry the exact contracts.

use vstd::prelude::*;

verus! {

#[verifier::external_type_specification]
#[verifier::external_body]
pub struct ExValue(serde_json::Value);

/// Relies on `serde_json::from_str`: parses text into a JSON value, or
/// nothing when the text is not valid JSON.
#[verifier::external_body]
pub(crate) fn json_parse(s: &str) -> Option<serde_json::Value> {
    serde_json::from_str(s).ok()
}

/// Relies on `serde_json::Value::get`: the member of a JSON object under
/// `key`, or nothing when absent or not an object.
#[verifier::external_body]
pub(crate) fn json_get(v: &serde_json::Value, key: &str) -> Option<serde_json::Value> {
    v.get(key).cloned()
}

/// Relies on `serde_json::Value::as_str`: the text of a JSON string value,
/// or nothing for any other kind of value.
#[verifier::external_body]
pub(crate) fn json_as_str(v: &serde_json::Value) -> Option<String> {
    v.as_str().map(|s| s.to_string())
}

/// Relies on `serde_json::Value::as_i64`: the value of a JSON integer, or
/// nothing for any other kind of value.
#[verifier::external_body]
pub(crate) fn json_as_i64(v: &serde_json::Value) -> Option<i64> {
    v.as_i64()
}

/// Relies on `serde_json::Value::as_bool`: the value of a JSON boolean, or
/// nothing for any other kind of value.
#[verifier::external_body]
pub(crate) fn json_as_bool(v: &serde_json::Value) -> Option<bool> {
    v.as_bool()
}

/// Relies on `serde_json::to_string`: the compact text form of a JSON
/// value.
#[verifier::external_body]
pub(crate) fn json_to_string(v: &serde_json::Value) -> Option<String> {
    serde_json::to_string(v).ok()
}

} // verus!

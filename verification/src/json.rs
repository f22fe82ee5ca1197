//! Thin trusted layer over `serde_json` document values. The values
//! stay opaque; every decision about their content is made by the
//! verified callers through these accessors.

use vstd::prelude::*;

verus! {

/// `serde_json::Value`, declared so that it can appear in signatures.
#[verifier::external_type_specification]
#[verifier::external_body]
pub struct ExJsonValue(serde_json::Value);

/// `serde_json::Error`, declared so that parses can return it.
#[verifier::external_type_specification]
#[verifier::external_body]
pub struct ExJsonError(serde_json::Error);

/// Relies on `serde_json::from_str::<Value>`: parses one JSON
/// document, or reports a syntax error.
#[verifier::external_body]
pub fn json_parse(s: &str) -> Result<serde_json::Value, serde_json::Error> {
    serde_json::from_str(s)
}

/// Relies on `serde_json::Value::get`: member lookup by key, `None`
/// when absent or not an object.
#[verifier::external_body]
pub fn json_get<'a>(v: &'a serde_json::Value, key: &str) -> Option<&'a serde_json::Value> {
    v.get(key)
}

/// Relies on `serde_json::Value::as_str`: the string payload, if the
/// value is a string.
#[verifier::external_body]
pub fn json_as_str(v: &serde_json::Value) -> Option<String> {
    v.as_str().map(|s| s.to_string())
}

/// Relies on `serde_json::Value::as_object` and `Map::iter`: hands the
/// members of an object out as key/value pairs, in the map's order.
#[verifier::external_body]
pub fn json_object_entries(v: &serde_json::Value) -> Option<Vec<(String, serde_json::Value)>> {
    v.as_object().map(|m| m.iter().map(|(k, val)| (k.clone(), val.clone())).collect())
}

} // verus!

//! Thin trusted layer over `toml` document values, mirroring the JSON
//! one: opaque values, verified callers.

use vstd::prelude::*;

verus! {

/// `toml::Value`, declared so that it can appear in signatures.
#[verifier::external_type_specification]
#[verifier::external_body]
pub struct ExTomlValue(toml::Value);

/// `toml::de::Error`, declared so that parses can return it.
#[verifier::external_type_specification]
#[verifier::external_body]
pub struct ExTomlError(toml::de::Error);

/// Relies on `<toml::Table as FromStr>::from_str`: parses one TOML
/// document into its root table, or reports a syntax error.
#[verifier::external_body]
pub fn toml_parse(s: &str) -> Result<toml::Value, toml::de::Error> {
    s.parse::<toml::Table>().map(toml::Value::Table)
}

/// Relies on `toml::Value::get`: member lookup by key, `None` when
/// absent or not a table.
#[verifier::external_body]
pub fn toml_get<'a>(v: &'a toml::Value, key: &str) -> Option<&'a toml::Value> {
    v.get(key)
}

/// Relies on `toml::Value::as_str`: the string payload, if the value
/// is a string.
#[verifier::external_body]
pub fn toml_as_str(v: &toml::Value) -> Option<String> {
    v.as_str().map(|s| s.to_string())
}

/// Relies on `toml::Value::as_array`: the element list, if the value
/// is an array.
#[verifier::external_body]
pub fn toml_as_array<'a>(v: &'a toml::Value) -> Option<&'a Vec<toml::Value>> {
    v.as_array()
}

/// Relies on `toml::Value::as_table` and `Map::iter`: hands the
/// members of a table out as key/value pairs, in the table's order.
#[verifier::external_body]
pub fn toml_table_entries(v: &toml::Value) -> Option<Vec<(String, toml::Value)>> {
    v.as_table().map(|m| m.iter().map(|(k, val)| (k.clone(), val.clone())).collect())
}

} // verus!

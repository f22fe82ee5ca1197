//! License lookup against crates.io.

use vstd::prelude::*;

use crate::json::{json_as_str, json_get, json_parse};

verus! {

/// The crates.io URL that reports one crate version.
pub fn license_url(name: &str, version: &str) -> (r: String)
    ensures
        r@ == "https://crates.io/api/v1/crates/"@ + name@ + "/"@ + version@,
{
    let mut url = String::from_str("https://crates.io/api/v1/crates/");
    url.append(name);
    url.append("/");
    url.append(version);
    url
}

/// The license field of a crates.io version response
/// (`version.license`).
pub fn license_from_response(body: &str) -> (r: Option<String>)
{
    let doc = match json_parse(body) {
        Ok(d) => d,
        Err(_) => {
            return None;
        },
    };
    let version = match json_get(&doc, "version") {
        Some(v) => v,
        None => {
            return None;
        },
    };
    match json_get(version, "license") {
        Some(l) => json_as_str(l),
        None => None,
    }
}

} // verus!

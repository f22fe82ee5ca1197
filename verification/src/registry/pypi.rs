//! License lookup against PyPI.

use vstd::prelude::*;

use crate::json::{json_as_str, json_get, json_parse};
use crate::text::chars_of;

verus! {

/// The PyPI JSON endpoint for a package: versioned when a version is
/// pinned, the latest release otherwise.
pub fn license_url(name: &str, version: &str) -> (r: String)
    ensures
        version@ == "*"@ ==> r@ == "https://pypi.org/pypi/"@ + name@ + "/json"@,
        version@ != "*"@ ==> r@ == "https://pypi.org/pypi/"@ + name@ + "/"@ + version@ + "/json"@,
{
    let star = crate::text::str_eq_str(version, "*");
    let mut url = String::from_str("https://pypi.org/pypi/");
    url.append(name);
    if !star {
        url.append("/");
        url.append(version);
    }
    url.append("/json");
    url
}

/// The license field of a PyPI response (`info.license`), kept only
/// when it is non-empty.
pub fn license_from_response(body: &str) -> (r: Option<String>)
    ensures
        r is Some ==> r->Some_0@.len() > 0,
{
    let doc = match json_parse(body) {
        Ok(d) => d,
        Err(_) => {
            return None;
        },
    };
    let info = match json_get(&doc, "info") {
        Some(v) => v,
        None => {
            return None;
        },
    };
    let license = match json_get(info, "license") {
        Some(l) => json_as_str(l),
        None => None,
    };
    match license {
        Some(s) => {
            if chars_of(s.as_str()).len() > 0 {
                Some(s)
            } else {
                None
            }
        },
        None => None,
    }
}

} // verus!

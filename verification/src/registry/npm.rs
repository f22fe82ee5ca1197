//! License lookup against the npm registry.

use vstd::prelude::*;

use crate::json::{json_as_str, json_get, json_parse};
use crate::text::{chars_of, string_of, str_eq_str};

verus! {

/// URL-encode the scoped-package characters of an npm name:
/// `@` becomes `%40` and `/` becomes `%2F`.
pub open spec fn spec_encode_npm(s: Seq<char>) -> Seq<char>
    decreases s.len(),
{
    if s.len() == 0 {
        Seq::empty()
    } else {
        spec_encode_npm(s.drop_last()) + (if s[s.len() - 1] == '@' {
            "%40"@
        } else if s[s.len() - 1] == '/' {
            "%2F"@
        } else {
            seq![s[s.len() - 1]]
        })
    }
}

/// Executable npm name encoding.
pub fn encode_npm_name(name: &str) -> (r: Vec<char>)
    ensures
        r@ == spec_encode_npm(name@),
{
    let v = chars_of(name);
    let mut r: Vec<char> = Vec::new();
    let mut i: usize = 0;
    while i < v.len()
        invariant
            i <= v@.len(),
            r@ =~= spec_encode_npm(v@.take(i as int)),
        decreases v@.len() - i,
    {
        proof {
            assert(v@.take(i + 1).drop_last() =~= v@.take(i as int));
            assert(v@.take(i + 1)[i as int] == v@[i as int]);
        }
        if v[i] == '@' {
            r.push('%');
            r.push('4');
            r.push('0');
            proof {
                reveal_strlit("%40");
                assert(r@ =~= spec_encode_npm(v@.take(i + 1)));
            }
        } else if v[i] == '/' {
            r.push('%');
            r.push('2');
            r.push('F');
            proof {
                reveal_strlit("%2F");
                assert(r@ =~= spec_encode_npm(v@.take(i + 1)));
            }
        } else {
            r.push(v[i]);
            proof {
                assert(r@ =~= spec_encode_npm(v@.take(i + 1)));
            }
        }
        i = i + 1;
    }
    proof {
        assert(v@.take(v@.len() as int) =~= v@);
    }
    r
}

/// The npm registry endpoint for a package: versioned when a version
/// is pinned, the whole package document otherwise.
pub fn license_url(name: &str, version: &str) -> (r: String)
    ensures
        version@ == "*"@ ==> r@ == "https://registry.npmjs.org/"@ + spec_encode_npm(name@),
        version@ != "*"@ ==> r@ == "https://registry.npmjs.org/"@ + spec_encode_npm(name@) + "/"@
            + version@,
{
    let star = str_eq_str(version, "*");
    let encoded = string_of(&encode_npm_name(name));
    let mut url = String::from_str("https://registry.npmjs.org/");
    url.append(encoded.as_str());
    if !star {
        url.append("/");
        url.append(version);
    }
    url
}

/// The license of an npm response: at top level for a versioned
/// lookup; for a whole-package lookup, the license of the version
/// that `dist-tags.latest` names.
pub fn license_from_response(body: &str, version: &str) -> (r: Option<String>)
{
    let doc = match json_parse(body) {
        Ok(d) => d,
        Err(_) => {
            return None;
        },
    };
    if str_eq_str(version, "*") {
        let latest = match json_get(&doc, "dist-tags") {
            Some(tags) => match json_get(tags, "latest") {
                Some(l) => json_as_str(l),
                None => None,
            },
            None => None,
        };
        match latest {
            Some(ver) => match json_get(&doc, "versions") {
                Some(versions) => match json_get(versions, ver.as_str()) {
                    Some(v) => match json_get(v, "license") {
                        Some(l) => json_as_str(l),
                        None => None,
                    },
                    None => None,
                },
                None => None,
            },
            None => None,
        }
    } else {
        match json_get(&doc, "license") {
            Some(l) => json_as_str(l),
            None => None,
        }
    }
}

} // verus!

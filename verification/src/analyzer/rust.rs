//! Analyzer for Rust projects managed by Cargo.
//!
//! `Cargo.lock` is parsed for external packages (entries with a
//! `source` field); the local Cargo registry cache may then supply a
//! license string per package.

use vstd::prelude::*;

use crate::models::{Dependency, Ecosystem, LicenseRisk, LicenseSource, PolicyVerdict};
use crate::tomlread::{toml_as_array, toml_as_str, toml_get, toml_parse};

verus! {

/// Analyzer for Rust projects managed by Cargo.
pub struct RustAnalyzer;

impl RustAnalyzer {
    /// Create a new `RustAnalyzer`.
    pub fn new() -> Self {
        Self
    }
}

/// Parse `Cargo.lock` and return the `(name, version)` of every
/// external package — local workspace members, which have no
/// `source` field, are filtered out. A malformed document yields
/// nothing.
pub fn parse_cargo_lock(content: &str) -> (r: Vec<(String, String)>)
{
    let mut r: Vec<(String, String)> = Vec::new();
    let doc = match toml_parse(content) {
        Ok(d) => d,
        Err(_) => {
            return r;
        },
    };
    let packages = match toml_get(&doc, "package") {
        Some(p) => p,
        None => {
            return r;
        },
    };
    let arr = match toml_as_array(packages) {
        Some(a) => a,
        None => {
            return r;
        },
    };
    let mut i: usize = 0;
    while i < arr.len()
        decreases arr@.len() - i,
    {
        let entry = &arr[i];
        if toml_get(entry, "source").is_some() {
            let name = match toml_get(entry, "name") {
                Some(v) => toml_as_str(v),
                None => None,
            };
            let version = match toml_get(entry, "version") {
                Some(v) => toml_as_str(v),
                None => None,
            };
            if let Some(n) = name {
                if let Some(ver) = version {
                    r.push((n, ver));
                }
            }
        }
        i = i + 1;
    }
    r
}

/// The `license` field of a crate manifest (`[package].license`),
/// as found in the local Cargo registry cache.
pub fn license_from_manifest(content: &str) -> (r: Option<String>)
{
    let doc = match toml_parse(content) {
        Ok(d) => d,
        Err(_) => {
            return None;
        },
    };
    let package = match toml_get(&doc, "package") {
        Some(p) => p,
        None => {
            return None;
        },
    };
    match toml_get(package, "license") {
        Some(v) => toml_as_str(v),
        None => None,
    }
}

/// Build the dependency records for the lock packages: each carries
/// its cached license (both fields) when one was found, its source is
/// the cache exactly when a license was found, and risk and verdict
/// stay at their placeholders.
pub fn make_deps(pkgs: Vec<(String, String)>, licenses: Vec<Option<String>>) -> (r: Vec<
    Dependency,
>)
    requires
        pkgs@.len() == licenses@.len(),
    ensures
        r@.len() == pkgs@.len(),
        forall|i: int| 0 <= i < r@.len() ==> {
            let d = #[trigger] r@[i];
            &&& d.name == pkgs@[i].0
            &&& d.version == pkgs@[i].1
            &&& d.ecosystem == Ecosystem::Rust
            &&& d.license_raw == licenses@[i]
            &&& d.license_spdx == licenses@[i]
            &&& d.risk == LicenseRisk::Unknown
            &&& d.verdict == PolicyVerdict::Warn
            &&& d.source == (if licenses@[i] is Some {
                LicenseSource::Cache
            } else {
                LicenseSource::Unknown
            })
        },
{
    let mut r: Vec<Dependency> = Vec::new();
    let mut i: usize = 0;
    let mut rest_pkgs = pkgs;
    let mut rest_lics = licenses;
    let total: usize = rest_pkgs.len();
    let ghost all_pkgs = rest_pkgs@;
    let ghost all_lics = rest_lics@;
    while rest_pkgs.len() > 0
        invariant
            all_pkgs.len() == total,
            all_pkgs.len() == all_lics.len(),
            i + rest_pkgs@.len() == all_pkgs.len(),
            i + rest_lics@.len() == all_lics.len(),
            rest_pkgs@ == all_pkgs.skip(i as int),
            rest_lics@ == all_lics.skip(i as int),
            r@.len() == i,
            forall|j: int| 0 <= j < r@.len() ==> {
                let d = #[trigger] r@[j];
                &&& d.name == all_pkgs[j].0
                &&& d.version == all_pkgs[j].1
                &&& d.ecosystem == Ecosystem::Rust
                &&& d.license_raw == all_lics[j]
                &&& d.license_spdx == all_lics[j]
                &&& d.risk == LicenseRisk::Unknown
                &&& d.verdict == PolicyVerdict::Warn
                &&& d.source == (if all_lics[j] is Some {
                    LicenseSource::Cache
                } else {
                    LicenseSource::Unknown
                })
            },
        decreases rest_pkgs@.len(),
    {
        proof {
            assert(all_pkgs.skip(i as int)[0] == all_pkgs[i as int]);
            assert(all_lics.skip(i as int)[0] == all_lics[i as int]);
            assert(all_pkgs.skip(i as int).drop_first() =~= all_pkgs.skip(i + 1));
            assert(all_lics.skip(i as int).drop_first() =~= all_lics.skip(i + 1));
        }
        let (name, version) = rest_pkgs.remove(0);
        let license = rest_lics.remove(0);
        let source = match &license {
            Some(_) => LicenseSource::Cache,
            None => LicenseSource::Unknown,
        };
        let license_copy = match &license {
            Some(s) => Some(s.clone()),
            None => None,
        };
        r.push(
            Dependency {
                name,
                version,
                ecosystem: Ecosystem::Rust,
                license_raw: license_copy,
                license_spdx: license,
                risk: LicenseRisk::Unknown,
                verdict: PolicyVerdict::Warn,
                source,
            },
        );
        i = i + 1;
    }
    r
}

} // verus!

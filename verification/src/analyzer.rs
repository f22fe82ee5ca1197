//! Per-ecosystem dependency analyzers. Each one parses manifest
//! contents (handed in as strings) and returns placeholder dependency
//! records, deduplicated with the aggregation rules.

pub mod dotnet;
pub mod java;
pub mod node;
pub mod python;
pub mod rust;

use vstd::prelude::*;

use crate::models::{Dependency, Ecosystem, LicenseRisk, PolicyVerdict};

verus! {

/// A freshly analyzed record: it belongs to the given ecosystem and
/// still carries the placeholder risk and verdict that only the
/// classification stage may replace.
pub open spec fn placeholder_record(d: Dependency, e: Ecosystem) -> bool {
    d.ecosystem == e && d.risk == LicenseRisk::Unknown && d.verdict == PolicyVerdict::Warn
}

/// A record whose license is entirely unknown so far.
pub open spec fn bare_license(d: Dependency) -> bool {
    d.license_raw is None && d.license_spdx is None && d.source
        == crate::models::LicenseSource::Unknown
}

/// Every record of the list is a placeholder record of the ecosystem.
pub open spec fn all_placeholder(deps: Seq<Dependency>, e: Ecosystem) -> bool {
    forall|i: int| 0 <= i < deps.len() ==> placeholder_record(#[trigger] deps[i], e)
}

} // verus!

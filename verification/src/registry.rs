//! Registry enrichment support: which registry serves an ecosystem,
//! the lookup URLs, and the extraction of license strings from
//! registry responses. The network calls themselves live outside the
//! library; everything here is a pure function of its inputs.

pub mod crates_io;
pub mod maven;
pub mod npm;
pub mod pypi;

use vstd::prelude::*;

use crate::models::Ecosystem;

verus! {

/// The registry that serves an ecosystem.
#[derive(Debug, Clone, Copy, PartialEq, Eq, Structural)]
pub enum RegistryKind {
    /// crates.io, for Rust.
    CratesIo,
    /// pypi.org, for Python.
    PyPi,
    /// Maven Central, for Java.
    Maven,
    /// registry.npmjs.org, for Node.
    Npm,
    /// No registry lookup is made.
    NoRegistry,
}

/// The registry is a pure function of the ecosystem.
pub open spec fn spec_registry_for(e: Ecosystem) -> RegistryKind {
    match e {
        Ecosystem::Rust => RegistryKind::CratesIo,
        Ecosystem::Python => RegistryKind::PyPi,
        Ecosystem::Java => RegistryKind::Maven,
        Ecosystem::Node => RegistryKind::Npm,
        Ecosystem::DotNet => RegistryKind::NoRegistry,
    }
}

/// Select the registry queried for a dependency's ecosystem.
pub fn registry_for(e: Ecosystem) -> (r: RegistryKind)
    ensures
        r == spec_registry_for(e),
{
    match e {
        Ecosystem::Rust => RegistryKind::CratesIo,
        Ecosystem::Python => RegistryKind::PyPi,
        Ecosystem::Java => RegistryKind::Maven,
        Ecosystem::Node => RegistryKind::Npm,
        Ecosystem::DotNet => RegistryKind::NoRegistry,
    }
}

} // verus!

//! Core data model: dependencies, ecosystems, license risk tiers,
//! policy verdicts and license provenance.

use vstd::prelude::*;

verus! {

/// Risk level associated with a license type.
#[derive(Debug, Clone, Copy, PartialEq, Eq, Structural)]
pub enum LicenseRisk {
    /// Minimal restrictions; freely usable in most projects (MIT, Apache-2.0, BSD, ISC, ...).
    Permissive,
    /// Share-alike obligations apply only to the library itself (LGPL, MPL-2.0, EPL, ...).
    WeakCopyleft,
    /// Any project using this dependency may need to be open-sourced (GPL, AGPL, ...).
    StrongCopyleft,
    /// Source code is not publicly available; usage requires a commercial agreement.
    Proprietary,
    /// License could not be determined or is not in the known SPDX table.
    Unknown,
}

/// The result of evaluating a dependency's license against the active policy.
#[derive(Debug, Clone, Copy, PartialEq, Eq, Structural)]
pub enum PolicyVerdict {
    /// License is explicitly allowed by the policy.
    Pass,
    /// License is not blocked but warrants attention.
    Warn,
    /// License violates the policy; the caller should exit non-zero.
    Error,
}

/// Supported package ecosystems.
#[derive(Debug, Clone, Copy, PartialEq, Eq, Structural)]
pub enum Ecosystem {
    /// Rust crates managed by Cargo (`Cargo.lock`).
    Rust,
    /// Python packages managed by pip / Poetry / Pipenv.
    Python,
    /// Java/Kotlin artifacts managed by Maven or Gradle.
    Java,
    /// Node.js packages managed by npm, Yarn, or pnpm.
    Node,
    /// .NET NuGet packages (SDK-style projects, `packages.config`, Paket).
    DotNet,
}

/// Where the license information for a dependency was sourced from.
#[derive(Debug, Clone, Copy, PartialEq, Eq, Structural)]
pub enum LicenseSource {
    /// Extracted directly from the project manifest (e.g. `package.json`).
    Manifest,
    /// Fetched from the upstream package registry.
    Registry,
    /// Read from the local package manager cache.
    Cache,
    /// Source is undetermined (offline scan with no license in manifest).
    Unknown,
}

impl LicenseRisk {
    /// Human-readable label, as shown in reports.
    pub fn label(&self) -> (r: &'static str)
        ensures
            r@ == spec_risk_label(*self),
    {
        match self {
            LicenseRisk::Permissive => "Permissive",
            LicenseRisk::WeakCopyleft => "Weak Copyleft",
            LicenseRisk::StrongCopyleft => "Strong Copyleft",
            LicenseRisk::Proprietary => "Proprietary",
            LicenseRisk::Unknown => "Unknown",
        }
    }
}

pub open spec fn spec_risk_label(r: LicenseRisk) -> Seq<char> {
    match r {
        LicenseRisk::Permissive => "Permissive"@,
        LicenseRisk::WeakCopyleft => "Weak Copyleft"@,
        LicenseRisk::StrongCopyleft => "Strong Copyleft"@,
        LicenseRisk::Proprietary => "Proprietary"@,
        LicenseRisk::Unknown => "Unknown"@,
    }
}

impl PolicyVerdict {
    /// Lower-case label, as shown in reports.
    pub fn label(&self) -> (r: &'static str)
        ensures
            r@ == spec_verdict_label(*self),
    {
        match self {
            PolicyVerdict::Pass => "pass",
            PolicyVerdict::Warn => "warn",
            PolicyVerdict::Error => "error",
        }
    }
}

pub open spec fn spec_verdict_label(v: PolicyVerdict) -> Seq<char> {
    match v {
        PolicyVerdict::Pass => "pass"@,
        PolicyVerdict::Warn => "warn"@,
        PolicyVerdict::Error => "error"@,
    }
}

impl Ecosystem {
    /// Display label, as shown in reports.
    pub fn label(&self) -> (r: &'static str)
        ensures
            r@ == spec_ecosystem_label(*self),
    {
        match self {
            Ecosystem::Rust => "Rust",
            Ecosystem::Python => "Python",
            Ecosystem::Java => "Java",
            Ecosystem::Node => "Node",
            Ecosystem::DotNet => ".NET",
        }
    }
}

pub open spec fn spec_ecosystem_label(e: Ecosystem) -> Seq<char> {
    match e {
        Ecosystem::Rust => "Rust"@,
        Ecosystem::Python => "Python"@,
        Ecosystem::Java => "Java"@,
        Ecosystem::Node => "Node"@,
        Ecosystem::DotNet => ".NET"@,
    }
}

impl LicenseSource {
    /// Lower-case label, as shown in reports.
    pub fn label(&self) -> (r: &'static str)
        ensures
            r@ == spec_source_label(*self),
    {
        match self {
            LicenseSource::Manifest => "manifest",
            LicenseSource::Registry => "registry",
            LicenseSource::Cache => "cache",
            LicenseSource::Unknown => "unknown",
        }
    }
}

pub open spec fn spec_source_label(s: LicenseSource) -> Seq<char> {
    match s {
        LicenseSource::Manifest => "manifest"@,
        LicenseSource::Registry => "registry"@,
        LicenseSource::Cache => "cache"@,
        LicenseSource::Unknown => "unknown"@,
    }
}

/// A resolved dependency with its license information and policy verdict.
#[derive(Debug, Clone)]
pub struct Dependency {
    /// Package name as it appears in the manifest (e.g. `serde`, `numpy`).
    pub name: String,
    /// Resolved version string (e.g. `1.0.136`, `3.11.0`).
    pub version: String,
    /// Ecosystem the dependency belongs to.
    pub ecosystem: Ecosystem,
    /// Raw license string as found in the manifest or registry (may be non-SPDX).
    pub license_raw: Option<String>,
    /// Normalized SPDX identifier (e.g. `MIT`, `Apache-2.0`, `GPL-3.0`).
    pub license_spdx: Option<String>,
    /// Risk classification of the license.
    pub risk: LicenseRisk,
    /// Policy verdict after evaluating the license against the active policy.
    pub verdict: PolicyVerdict,
    /// Where the license information was obtained from.
    pub source: LicenseSource,
}

/// One scanned sub-project in workspace mode.
#[derive(Debug, Clone)]
pub struct ProjectScan {
    /// Directory name of the sub-project.
    pub name: String,
    /// Path of the sub-project root.
    pub path: String,
    /// The classified dependencies of this sub-project.
    pub deps: Vec<Dependency>,
}

} // verus!

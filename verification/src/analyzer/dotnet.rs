//! Analyzer for .NET projects using NuGet or Paket.
//!
//! Supports SDK-style `*.csproj` / `*.fsproj` project files
//! (`<PackageReference>`), legacy `packages.config` (`<package>`)
//! and `paket.lock` (NUGET section entries), deduplicated by name
//! and version.

use vstd::prelude::*;

use crate::analyzer::{all_placeholder, bare_license, placeholder_record};
use crate::analyzer::python::{append_deps, merge_placeholders};
use crate::models::{Dependency, Ecosystem, LicenseRisk, LicenseSource, PolicyVerdict};
use crate::text::{chars_of, chars_eq_str, is_space_char, string_of};
use crate::xmlread::{XmlEvent, xml_next_event, xml_reader_from};

verus! {

/// Analyzer for .NET projects using NuGet or Paket.
pub struct DotNetAnalyzer;

impl DotNetAnalyzer {
    /// Create a new `DotNetAnalyzer`.
    pub fn new() -> Self {
        Self
    }

    /// Analyze the manifest contents found in a project directory:
    /// every project file, then `packages.config`, then `paket.lock`,
    /// deduplicated by name and version.
    pub fn analyze_contents(
        &self,
        project_files: &Vec<String>,
        packages_config: Option<&str>,
        paket_lock: Option<&str>,
    ) -> (r: Vec<Dependency>)
        ensures
            all_placeholder(r@, Ecosystem::DotNet),
    {
        let mut deps: Vec<Dependency> = Vec::new();
        let mut i: usize = 0;
        while i < project_files.len()
            invariant
                i <= project_files@.len(),
                all_placeholder(deps@, Ecosystem::DotNet),
            decreases project_files@.len() - i,
        {
            let mut parsed = parse_project_file(project_files[i].as_str());
            append_deps(&mut deps, &mut parsed, Ghost(Ecosystem::DotNet));
            i = i + 1;
        }
        if let Some(content) = packages_config {
            let mut parsed = parse_packages_config(content);
            append_deps(&mut deps, &mut parsed, Ghost(Ecosystem::DotNet));
        }
        if let Some(content) = paket_lock {
            let mut parsed = parse_paket_lock(content);
            append_deps(&mut deps, &mut parsed, Ghost(Ecosystem::DotNet));
        }
        merge_placeholders(deps, Ghost(Ecosystem::DotNet))
    }
}

/// A placeholder .NET dependency with no license information.
pub fn make_dep(name: String, version: String) -> (d: Dependency)
    ensures
        d.name == name,
        d.version == version,
        d.ecosystem == Ecosystem::DotNet,
        bare_license(d),
        placeholder_record(d, Ecosystem::DotNet),
{
    Dependency {
        name,
        version,
        ecosystem: Ecosystem::DotNet,
        license_raw: None,
        license_spdx: None,
        risk: LicenseRisk::Unknown,
        verdict: PolicyVerdict::Warn,
        source: LicenseSource::Unknown,
    }
}

/// The values of two attributes of an XML tag, by name.
fn two_attrs(attrs: &Vec<(String, String)>, first: &str, second: &str) -> (r: (
    Option<String>,
    Option<String>,
))
{
    let mut a: Option<String> = None;
    let mut b: Option<String> = None;
    let mut i: usize = 0;
    while i < attrs.len()
        decreases attrs@.len() - i,
    {
        let key = chars_of(attrs[i].0.as_str());
        if chars_eq_str(&key, first) && a.is_none() {
            a = Some(attrs[i].1.clone());
        } else if chars_eq_str(&key, second) && b.is_none() {
            b = Some(attrs[i].1.clone());
        }
        i = i + 1;
    }
    (a, b)
}

/// Parse a `.csproj` / `.fsproj` project file: every
/// `<PackageReference Include="..." Version="..." />` with a
/// non-empty `Include` contributes one placeholder dependency.
pub fn parse_project_file(content: &str) -> (r: Vec<Dependency>)
    ensures
        all_placeholder(r@, Ecosystem::DotNet),
        forall|i: int| 0 <= i < r@.len() ==> bare_license(#[trigger] r@[i]),
{
    parse_ref_elements(content, "PackageReference", "Include", "Version")
}

/// Parse `packages.config`: every `<package id="..." version="..." />`
/// with a non-empty `id` contributes one placeholder dependency.
pub fn parse_packages_config(content: &str) -> (r: Vec<Dependency>)
    ensures
        all_placeholder(r@, Ecosystem::DotNet),
        forall|i: int| 0 <= i < r@.len() ==> bare_license(#[trigger] r@[i]),
{
    parse_ref_elements(content, "package", "id", "version")
}

/// Shared scan for reference elements: tags named `tag` whose
/// `name_attr` is non-empty become dependencies, with `ver_attr` (or
/// the empty string) as the version. Reading never runs longer than
/// the document itself.
fn parse_ref_elements(content: &str, tag: &str, name_attr: &str, ver_attr: &str) -> (r: Vec<
    Dependency,
>)
    ensures
        all_placeholder(r@, Ecosystem::DotNet),
        forall|i: int| 0 <= i < r@.len() ==> bare_license(#[trigger] r@[i]),
{
    let mut deps: Vec<Dependency> = Vec::new();
    let mut reader = xml_reader_from(content);
    let fuel: usize = content.len();
    let mut steps: usize = 0;
    while steps < fuel
        invariant
            steps <= fuel,
            all_placeholder(deps@, Ecosystem::DotNet),
            forall|i: int| 0 <= i < deps@.len() ==> bare_license(#[trigger] deps@[i]),
        decreases fuel - steps,
    {
        let attrs: Option<Vec<(String, String)>> = match xml_next_event(&mut reader) {
            XmlEvent::Start(t, a) => {
                if chars_eq_str(&chars_of(t.as_str()), tag) {
                    Some(a)
                } else {
                    None
                }
            },
            XmlEvent::Empty(t, a) => {
                if chars_eq_str(&chars_of(t.as_str()), tag) {
                    Some(a)
                } else {
                    None
                }
            },
            XmlEvent::Eof => {
                return deps;
            },
            _ => None,
        };
        if let Some(a) = attrs {
            let (name, version) = two_attrs(&a, name_attr, ver_attr);
            if let Some(n) = name {
                if n.as_str().unicode_len() > 0 {
                    let ver = match version {
                        Some(v) => v,
                        None => String::new(),
                    };
                    deps.push(make_dep(n, ver));
                }
            }
        }
        steps = steps + 1;
    }
    deps
}

/// The `(name, version)` of one `paket.lock` NUGET entry: exactly
/// four spaces of indentation, a name, whitespace and a
/// parenthesised version.
fn paket_entry(line: &Vec<char>) -> (r: Option<(Vec<char>, Vec<char>)>)
{
    if line.len() < 5 {
        return None;
    }
    let mut k: usize = 0;
    while k < 4
        invariant
            k <= 4,
            line@.len() >= 5,
        decreases 4 - k,
    {
        if !is_space_char(line[k]) {
            return None;
        }
        k = k + 1;
    }
    if is_space_char(line[4]) {
        return None;
    }
    let mut name: Vec<char> = Vec::new();
    let mut i: usize = 4;
    while i < line.len() && !is_space_char(line[i])
        invariant
            4 <= i <= line@.len(),
        decreases line@.len() - i,
    {
        name.push(line[i]);
        i = i + 1;
    }
    while i < line.len() && is_space_char(line[i])
        invariant
            4 <= i <= line@.len(),
        decreases line@.len() - i,
    {
        i = i + 1;
    }
    if i >= line.len() || line[i] != '(' {
        return None;
    }
    let mut version: Vec<char> = Vec::new();
    let mut j: usize = i + 1;
    while j < line.len() && line[j] != ')'
        invariant
            i < j <= line@.len(),
        decreases line@.len() - j,
    {
        version.push(line[j]);
        j = j + 1;
    }
    if j >= line.len() {
        return None;
    }
    Some((name, version))
}

/// Parse `paket.lock`: inside the `NUGET` section, every entry line
/// `    Name (version)` contributes one placeholder dependency; a new
/// top-level section ends the NUGET block.
pub fn parse_paket_lock(content: &str) -> (r: Vec<Dependency>)
    ensures
        all_placeholder(r@, Ecosystem::DotNet),
        forall|i: int| 0 <= i < r@.len() ==> bare_license(#[trigger] r@[i]),
{
    let v = chars_of(content);
    let nl = chars_of("\n");
    proof {
        reveal_strlit("\n");
    }
    let lines = crate::text::split_chars(&v, &nl);
    let mut deps: Vec<Dependency> = Vec::new();
    let mut in_nuget: bool = false;
    let mut i: usize = 0;
    while i < lines.len()
        invariant
            i <= lines@.len(),
            all_placeholder(deps@, Ecosystem::DotNet),
            forall|k: int| 0 <= k < deps@.len() ==> bare_license(#[trigger] deps@[k]),
        decreases lines@.len() - i,
    {
        let line = &lines[i];
        let trimmed_end = crate::text::trim_chars(line);
        if line.len() > 0 && !is_space_char(line[0]) && chars_eq_str(&trimmed_end, "NUGET") {
            in_nuget = true;
        } else {
            if line.len() > 0 && !is_space_char(line[0]) {
                in_nuget = false;
            }
            if in_nuget {
                if let Some((name, version)) = paket_entry(line) {
                    deps.push(make_dep(string_of(&name), string_of(&version)));
                }
            }
        }
        i = i + 1;
    }
    deps
}

} // verus!

//! Analyzer for Java/Kotlin projects managed by Maven or Gradle.
//!
//! Parses `pom.xml`, `build.gradle` / `build.gradle.kts` and
//! `gradle.lockfile`; dependencies are deduplicated by their
//! `group:artifact` name and version.

use vstd::prelude::*;

use crate::analyzer::{all_placeholder, bare_license, placeholder_record};
use crate::analyzer::python::{append_deps, merge_placeholders};
use crate::models::{Dependency, Ecosystem, LicenseRisk, LicenseSource, PolicyVerdict};
use crate::text::{chars_of, chars_eq_str, copy_chars, is_space_char, string_of, trim_chars};
use crate::xmlread::{XmlEvent, xml_next_event, xml_reader_from};

verus! {

/// Analyzer for Java/Kotlin projects managed by Maven or Gradle.
pub struct JavaAnalyzer;

impl JavaAnalyzer {
    /// Create a new `JavaAnalyzer`.
    pub fn new() -> Self {
        Self
    }

    /// Analyze the manifest contents found in a project directory:
    /// `pom.xml` first, then the Gradle build files, then the Gradle
    /// lockfile, deduplicated by name and version.
    pub fn analyze_contents(
        &self,
        pom: Option<&str>,
        gradle: Option<&str>,
        gradle_kts: Option<&str>,
        lockfile: Option<&str>,
    ) -> (r: Vec<Dependency>)
        ensures
            all_placeholder(r@, Ecosystem::Java),
    {
        let mut deps: Vec<Dependency> = Vec::new();
        if let Some(content) = pom {
            let mut parsed = parse_pom_xml(content);
            append_deps(&mut deps, &mut parsed, Ghost(Ecosystem::Java));
        }
        if let Some(content) = gradle {
            let mut parsed = parse_build_gradle(content);
            append_deps(&mut deps, &mut parsed, Ghost(Ecosystem::Java));
        }
        if let Some(content) = gradle_kts {
            let mut parsed = parse_build_gradle(content);
            append_deps(&mut deps, &mut parsed, Ghost(Ecosystem::Java));
        }
        if let Some(content) = lockfile {
            let mut parsed = parse_gradle_lockfile(content);
            append_deps(&mut deps, &mut parsed, Ghost(Ecosystem::Java));
        }
        merge_placeholders(deps, Ghost(Ecosystem::Java))
    }
}

/// A placeholder Java dependency named by its Maven coordinates:
/// `group:artifact`, or the bare artifact when the group is empty.
pub fn make_dep(group_id: &Vec<char>, artifact_id: &Vec<char>, version: &Vec<char>) -> (d:
    Dependency)
    ensures
        d.name@ == (if group_id@.len() == 0 {
            artifact_id@
        } else {
            group_id@ + ":"@ + artifact_id@
        }),
        d.version@ == version@,
        d.ecosystem == Ecosystem::Java,
        bare_license(d),
        placeholder_record(d, Ecosystem::Java),
{
    let name: String = if group_id.len() == 0 {
        string_of(artifact_id)
    } else {
        let mut n = copy_chars(group_id);
        n.push(':');
        let mut k: usize = 0;
        while k < artifact_id.len()
            invariant
                k <= artifact_id@.len(),
                n@ =~= group_id@ + seq![':'] + artifact_id@.take(k as int),
            decreases artifact_id@.len() - k,
        {
            n.push(artifact_id[k]);
            k = k + 1;
        }
        proof {
            reveal_strlit(":");
            assert(n@ =~= group_id@ + ":"@ + artifact_id@);
        }
        string_of(&n)
    };
    Dependency {
        name,
        version: string_of(version),
        ecosystem: Ecosystem::Java,
        license_raw: None,
        license_spdx: None,
        risk: LicenseRisk::Unknown,
        verdict: PolicyVerdict::Warn,
        source: LicenseSource::Unknown,
    }
}

/// Parse `pom.xml`: every `<dependency>` inside a `<dependencies>`
/// block contributes its `groupId`, `artifactId` and `version`
/// children; entries without an artifact are skipped. Reading stops
/// at the end of the document, and never runs longer than the
/// document itself.
pub fn parse_pom_xml(content: &str) -> (r: Vec<Dependency>)
    ensures
        all_placeholder(r@, Ecosystem::Java),
        forall|i: int| 0 <= i < r@.len() ==> bare_license(#[trigger] r@[i]),
{
    let mut deps: Vec<Dependency> = Vec::new();
    let mut reader = xml_reader_from(content);
    let fuel: usize = content.len();
    let mut steps: usize = 0;

    let mut in_dependencies: bool = false;
    let mut depth: usize = 0;
    let mut dependencies_depth: usize = 0;
    let mut in_dependency: bool = false;
    let mut current_tag: Vec<char> = Vec::new();
    let mut group_id: Vec<char> = Vec::new();
    let mut artifact_id: Vec<char> = Vec::new();
    let mut version: Vec<char> = Vec::new();

    while steps < fuel
        invariant
            steps <= fuel,
            all_placeholder(deps@, Ecosystem::Java),
            forall|i: int| 0 <= i < deps@.len() ==> bare_license(#[trigger] deps@[i]),
        decreases fuel - steps,
    {
        match xml_next_event(&mut reader) {
            XmlEvent::Start(tag, _) => {
                if depth < usize::MAX {
                    depth = depth + 1;
                }
                let tagv = chars_of(tag.as_str());
                if chars_eq_str(&tagv, "dependencies") && !in_dependency {
                    in_dependencies = true;
                    dependencies_depth = depth;
                } else if chars_eq_str(&tagv, "dependency") && in_dependencies {
                    in_dependency = true;
                    group_id = Vec::new();
                    artifact_id = Vec::new();
                    version = Vec::new();
                }
                current_tag = tagv;
            },
            XmlEvent::End(tag) => {
                let tagv = chars_of(tag.as_str());
                if chars_eq_str(&tagv, "dependency") && in_dependency {
                    if artifact_id.len() > 0 {
                        deps.push(make_dep(&group_id, &artifact_id, &version));
                    }
                    in_dependency = false;
                } else if chars_eq_str(&tagv, "dependencies") && depth == dependencies_depth {
                    in_dependencies = false;
                }
                if depth > 0 {
                    depth = depth - 1;
                }
                current_tag = Vec::new();
            },
            XmlEvent::Text(text) => {
                if in_dependency {
                    let tv = chars_of(text.as_str());
                    if chars_eq_str(&current_tag, "groupId") {
                        group_id = tv;
                    } else if chars_eq_str(&current_tag, "artifactId") {
                        artifact_id = tv;
                    } else if chars_eq_str(&current_tag, "version") {
                        version = tv;
                    }
                }
            },
            XmlEvent::Eof => {
                return deps;
            },
            _ => {},
        }
        steps = steps + 1;
    }
    deps
}

// ---------------------------------------------------------------------------
// Gradle build files and lockfile
// ---------------------------------------------------------------------------

/// Does the line start with the given word? Returns the position
/// after it.
fn starts_with_word(line: &Vec<char>, kw: &str) -> (r: Option<usize>)
    ensures
        match r {
            Some(p) => p <= line@.len(),
            None => true,
        },
{
    let kwlen: usize = kw.unicode_len();
    if kwlen > line.len() {
        return None;
    }
    let mut j: usize = 0;
    while j < kwlen
        invariant
            j <= kwlen,
            kwlen == kw@.len(),
            kwlen <= line@.len(),
        decreases kwlen - j,
    {
        if line[j] != kw.get_char(j) {
            return None;
        }
        j = j + 1;
    }
    Some(kwlen)
}

/// Position after a Gradle dependency-configuration keyword at the
/// start of the line, if one is there.
fn match_keyword(line: &Vec<char>) -> (r: Option<usize>)
    ensures
        match r {
            Some(p) => p <= line@.len(),
            None => true,
        },
{
    if let Some(p) = starts_with_word(line, "testImplementation") {
        Some(p)
    } else if let Some(p) = starts_with_word(line, "implementation") {
        Some(p)
    } else if let Some(p) = starts_with_word(line, "compileOnly") {
        Some(p)
    } else if let Some(p) = starts_with_word(line, "runtimeOnly") {
        Some(p)
    } else if let Some(p) = starts_with_word(line, "api") {
        Some(p)
    } else {
        None
    }
}

/// The next single- or double-quoted run after `from`, with the
/// position just past its closing quote.
fn read_quoted(line: &Vec<char>, from: usize) -> (r: Option<(Vec<char>, usize)>)
    requires
        from <= line@.len(),
    ensures
        match r {
            Some(p) => from < p.1 <= line@.len(),
            None => true,
        },
{
    let mut i: usize = from;
    while i < line.len() && line[i] != '\'' && line[i] != '"'
        invariant
            from <= i <= line@.len(),
        decreases line@.len() - i,
    {
        i = i + 1;
    }
    if i >= line.len() {
        return None;
    }
    let quote = line[i];
    let mut content: Vec<char> = Vec::new();
    let mut j: usize = i + 1;
    while j < line.len() && line[j] != quote
        invariant
            i < j <= line@.len(),
        decreases line@.len() - j,
    {
        content.push(line[j]);
        j = j + 1;
    }
    if j >= line.len() {
        return None;
    }
    Some((content, j + 1))
}

/// Split `g:a:v` coordinates into their three segments.
fn split_coords(s: &Vec<char>) -> (r: Option<(Vec<char>, Vec<char>, Vec<char>)>)
{
    let colon = chars_of(":");
    proof {
        reveal_strlit(":");
    }
    let parts = crate::text::split_chars(s, &colon);
    if parts.len() != 3 {
        return None;
    }
    let g = copy_chars(&parts[0]);
    let a = copy_chars(&parts[1]);
    let v = copy_chars(&parts[2]);
    if g.len() == 0 || a.len() == 0 || v.len() == 0 {
        return None;
    }
    Some((g, a, v))
}

/// Parse `build.gradle` / `build.gradle.kts`: lines declaring a
/// dependency configuration with quoted `group:artifact:version`
/// coordinates, or with quoted `group:`/`name:`/`version:` values,
/// each contribute one placeholder dependency.
pub fn parse_build_gradle(content: &str) -> (r: Vec<Dependency>)
    ensures
        all_placeholder(r@, Ecosystem::Java),
        forall|i: int| 0 <= i < r@.len() ==> bare_license(#[trigger] r@[i]),
{
    let v = chars_of(content);
    let nl = chars_of("\n");
    proof {
        reveal_strlit("\n");
    }
    let lines = crate::text::split_chars(&v, &nl);
    let mut deps: Vec<Dependency> = Vec::new();
    let mut i: usize = 0;
    while i < lines.len()
        invariant
            i <= lines@.len(),
            all_placeholder(deps@, Ecosystem::Java),
            forall|k: int| 0 <= k < deps@.len() ==> bare_license(#[trigger] deps@[k]),
        decreases lines@.len() - i,
    {
        let line = trim_chars(&lines[i]);
        if let Some(after_kw) = match_keyword(&line) {
            // at least one whitespace must follow the keyword
            if after_kw < line.len() && is_space_char(line[after_kw]) {
                if let Some((first, p1)) = read_quoted(&line, after_kw) {
                    if let Some((g, a, ver)) = split_coords(&first) {
                        // shorthand form: 'group:artifact:version'
                        deps.push(make_dep(&g, &a, &ver));
                    } else if let Some((second, p2)) = read_quoted(&line, p1) {
                        // map form: group: 'g', name: 'a', version: 'v'
                        if let Some((third, _p3)) = read_quoted(&line, p2) {
                            if first.len() > 0 && second.len() > 0 && third.len() > 0 {
                                deps.push(make_dep(&first, &second, &third));
                            }
                        }
                    }
                }
            }
        }
        i = i + 1;
    }
    deps
}

/// Parse `gradle.lockfile`: lines of the form
/// `group:artifact:version=...`, comments and blank lines skipped.
pub fn parse_gradle_lockfile(content: &str) -> (r: Vec<Dependency>)
    ensures
        all_placeholder(r@, Ecosystem::Java),
        forall|i: int| 0 <= i < r@.len() ==> bare_license(#[trigger] r@[i]),
{
    let v = chars_of(content);
    let nl = chars_of("\n");
    proof {
        reveal_strlit("\n");
    }
    let lines = crate::text::split_chars(&v, &nl);
    let mut deps: Vec<Dependency> = Vec::new();
    let mut i: usize = 0;
    while i < lines.len()
        invariant
            i <= lines@.len(),
            all_placeholder(deps@, Ecosystem::Java),
            forall|k: int| 0 <= k < deps@.len() ==> bare_license(#[trigger] deps@[k]),
        decreases lines@.len() - i,
    {
        let line = trim_chars(&lines[i]);
        if line.len() > 0 && line[0] != '#' {
            if let Some((g, a, rest)) = lock_line_coords(&line) {
                deps.push(make_dep(&g, &a, &rest));
            }
        }
        i = i + 1;
    }
    deps
}

/// The `group`, `artifact` and `version` of one lockfile line:
/// two `:`-separated segments, then version characters up to the
/// first `=` or whitespace.
fn lock_line_coords(line: &Vec<char>) -> (r: Option<(Vec<char>, Vec<char>, Vec<char>)>)
{
    let mut g: Vec<char> = Vec::new();
    let mut a: Vec<char> = Vec::new();
    let mut ver: Vec<char> = Vec::new();
    let mut seg: u8 = 0;
    let mut i: usize = 0;
    while i < line.len() && seg < 3
        invariant
            i <= line@.len(),
        decreases line@.len() - i, 3 - seg,
    {
        let c = line[i];
        if seg < 2 && c == ':' {
            seg = seg + 1;
            i = i + 1;
        } else if seg == 2 && (c == '=' || is_space_char(c)) {
            seg = 3;
        } else {
            if seg == 0 {
                g.push(c);
            } else if seg == 1 {
                a.push(c);
            } else {
                ver.push(c);
            }
            i = i + 1;
        }
    }
    if seg >= 2 && g.len() > 0 && a.len() > 0 && ver.len() > 0 {
        Some((g, a, ver))
    } else {
        None
    }
}

} // verus!

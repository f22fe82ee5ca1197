//! Analyzer for Node.js projects.
//!
//! Sources in priority order: `package-lock.json`, then `yarn.lock`;
//! `package.json` declared ranges are used only when neither lock
//! file yielded anything. Results are deduplicated by name and
//! version.

use vstd::prelude::*;

use crate::aggregate::{spec_merge};
use crate::analyzer::{all_placeholder, bare_license};
use crate::analyzer::python::{append_deps, merge_placeholders};
use crate::json::{json_as_str, json_get, json_object_entries, json_parse};
use crate::models::{Dependency, Ecosystem, LicenseRisk, LicenseSource, PolicyVerdict};
use crate::text::{chars_of, copy_chars, string_of, trim_chars};

verus! {

/// Analyzer for Node.js projects managed by npm, Yarn, or pnpm.
pub struct NodeAnalyzer;

impl NodeAnalyzer {
    /// Create a new `NodeAnalyzer`.
    pub fn new() -> Self {
        Self
    }

    /// Combine the parsed sources: the lock files win; the declared
    /// ranges of `package.json` count only when both lock files were
    /// empty. The result is deduplicated by name and version.
    pub fn assemble(
        &self,
        lock_deps: Vec<Dependency>,
        yarn_deps: Vec<Dependency>,
        pkg_deps: Vec<Dependency>,
    ) -> (r: Vec<Dependency>)
        requires
            all_placeholder(lock_deps@, Ecosystem::Node),
            all_placeholder(yarn_deps@, Ecosystem::Node),
            all_placeholder(pkg_deps@, Ecosystem::Node),
        ensures
            lock_deps@.len() + yarn_deps@.len() > 0 ==> r@ == spec_merge(lock_deps@ + yarn_deps@),
            lock_deps@.len() + yarn_deps@.len() == 0 ==> r@ == spec_merge(pkg_deps@),
            all_placeholder(r@, Ecosystem::Node),
    {
        let ghost lv = lock_deps@;
        let ghost yv = yarn_deps@;
        let mut deps = lock_deps;
        let mut yarn = yarn_deps;
        if deps.len() > 0 || yarn.len() > 0 {
            append_deps(&mut deps, &mut yarn, Ghost(Ecosystem::Node));
            merge_placeholders(deps, Ghost(Ecosystem::Node))
        } else {
            proof {
                assert(deps@ =~= lv);
            }
            merge_placeholders(pkg_deps, Ghost(Ecosystem::Node))
        }
    }
}

/// A placeholder Node dependency; a license found in a manifest fills
/// both license fields and marks the manifest as the source.
pub fn make_dep(name: String, version: String, license: Option<String>) -> (d: Dependency)
    ensures
        d.name == name,
        d.version == version,
        d.ecosystem == Ecosystem::Node,
        d.license_raw == license,
        d.license_spdx == license,
        d.risk == LicenseRisk::Unknown,
        d.verdict == PolicyVerdict::Warn,
        d.source == (if license is Some {
            LicenseSource::Manifest
        } else {
            LicenseSource::Unknown
        }),
{
    let source = match &license {
        Some(_) => LicenseSource::Manifest,
        None => LicenseSource::Unknown,
    };
    let license_copy = match &license {
        Some(s) => Some(s.clone()),
        None => None,
    };
    Dependency {
        name,
        version,
        ecosystem: Ecosystem::Node,
        license_raw: license_copy,
        license_spdx: license,
        risk: LicenseRisk::Unknown,
        verdict: PolicyVerdict::Warn,
        source,
    }
}

/// One package entry of `package-lock.json`: its path inside
/// `node_modules`, the derived package name, the pinned version and
/// the license named by the lock entry, if any.
pub struct NodeLockPackage {
    /// The entry's key: the path below the project root.
    pub path: String,
    /// The package name derived from the path.
    pub name: String,
    /// The pinned version, `*` when absent.
    pub version: String,
    /// The license stated in the lock entry.
    pub license: Option<String>,
}

/// Drop a leading `node_modules/` from an entry path.
pub open spec fn spec_strip_nm(s: Seq<char>) -> Seq<char> {
    if s.len() >= "node_modules/"@.len() && s.take("node_modules/"@.len() as int)
        == "node_modules/"@ {
        s.skip("node_modules/"@.len() as int)
    } else {
        s
    }
}

/// Executable `node_modules/` prefix stripping.
pub fn strip_nm_prefix(v: &Vec<char>) -> (r: Vec<char>)
    ensures
        r@ == spec_strip_nm(v@),
{
    let prefix = chars_of("node_modules/");
    proof {
        reveal_strlit("node_modules/");
    }
    if v.len() < prefix.len() {
        return copy_chars(v);
    }
    let mut k: usize = 0;
    while k < prefix.len()
        invariant
            k <= prefix@.len(),
            prefix@ == "node_modules/"@,
            prefix@.len() <= v@.len(),
            forall|j: int| 0 <= j < k ==> v@[j] == prefix@[j],
        decreases prefix@.len() - k,
    {
        if v[k] != prefix[k] {
            proof {
                if v@.take(prefix@.len() as int) == prefix@ {
                    assert(v@.take(prefix@.len() as int)[k as int] == v@[k as int]);
                }
            }
            return copy_chars(v);
        }
        k = k + 1;
    }
    proof {
        assert(v@.take(prefix@.len() as int) =~= prefix@);
    }
    let mut r: Vec<char> = Vec::new();
    let mut i: usize = prefix.len();
    while i < v.len()
        invariant
            prefix@.len() <= i <= v@.len(),
            r@ =~= v@.subrange(prefix@.len() as int, i as int),
        decreases v@.len() - i,
    {
        r.push(v[i]);
        i = i + 1;
    }
    proof {
        assert(r@ =~= spec_strip_nm(v@));
    }
    r
}

/// Parse `package-lock.json` (v2/v3 `packages` map): one entry per
/// package, the root entry (empty key) skipped, names derived from
/// the `node_modules/` paths.
pub fn parse_package_lock_json(content: &str) -> (r: Vec<NodeLockPackage>)
{
    let mut r: Vec<NodeLockPackage> = Vec::new();
    let doc = match json_parse(content) {
        Ok(d) => d,
        Err(_) => {
            return r;
        },
    };
    let packages = match json_get(&doc, "packages") {
        Some(p) => p,
        None => {
            return r;
        },
    };
    let entries = match json_object_entries(packages) {
        Some(e) => e,
        None => {
            return r;
        },
    };
    let mut e: usize = 0;
    while e < entries.len()
        decreases entries@.len() - e,
    {
        let pkg_path = &entries[e].0;
        if pkg_path.as_str().unicode_len() > 0 {
            let version = match json_get(&entries[e].1, "version") {
                Some(v) => match json_as_str(v) {
                    Some(s) => s,
                    None => String::from_str("*"),
                },
                None => String::from_str("*"),
            };
            let license = match json_get(&entries[e].1, "license") {
                Some(l) => json_as_str(l),
                None => None,
            };
            let name = string_of(&strip_nm_prefix(&chars_of(pkg_path.as_str())));
            r.push(NodeLockPackage { path: pkg_path.clone(), name, version, license });
        }
        e = e + 1;
    }
    r
}

/// The `license` field of a `package.json` document.
pub fn read_license_from_package_json(content: &str) -> (r: Option<String>)
{
    let doc = match json_parse(content) {
        Ok(d) => d,
        Err(_) => {
            return None;
        },
    };
    match json_get(&doc, "license") {
        Some(l) => json_as_str(l),
        None => None,
    }
}

/// Turn a lock entry into a dependency record; a license read from
/// the package's own `package.json` serves as the fallback.
pub fn lock_package_to_dep(p: &NodeLockPackage, fallback: Option<String>) -> (d: Dependency)
    ensures
        d.name == p.name,
        d.version == p.version,
        d.ecosystem == Ecosystem::Node,
        d.license_raw == (if p.license is Some {
            p.license
        } else {
            fallback
        }),
        d.license_spdx == d.license_raw,
        d.risk == LicenseRisk::Unknown,
        d.verdict == PolicyVerdict::Warn,
        d.source == (if d.license_raw is Some {
            LicenseSource::Manifest
        } else {
            LicenseSource::Unknown
        }),
{
    let license: Option<String> = match &p.license {
        Some(l) => Some(l.clone()),
        None => fallback,
    };
    make_dep(p.name.clone(), p.version.clone(), license)
}

/// Strip the leading characters of a declared version range until a
/// digit or `*` is found.
pub open spec fn spec_range_version(s: Seq<char>) -> Seq<char>
    decreases s.len(),
{
    if s.len() == 0 {
        s
    } else if ('0' <= s[0] && s[0] <= '9') || s[0] == '*' {
        s
    } else {
        spec_range_version(s.drop_first())
    }
}

/// Executable range-version trimming.
pub fn range_version(v: &Vec<char>) -> (r: Vec<char>)
    ensures
        r@ == spec_range_version(v@),
{
    proof {
        assert(v@.skip(0) =~= v@);
    }
    let mut i: usize = 0;
    while i < v.len() && !('0' <= v[i] && v[i] <= '9') && v[i] != '*'
        invariant
            i <= v@.len(),
            spec_range_version(v@) == spec_range_version(v@.skip(i as int)),
        decreases v@.len() - i,
    {
        proof {
            assert(v@.skip(i as int)[0] == v@[i as int]);
            assert(v@.skip(i as int).drop_first() =~= v@.skip(i + 1));
        }
        i = i + 1;
    }
    proof {
        assert(v@.skip(0) =~= v@);
        if i < v@.len() {
            assert(v@.skip(i as int)[0] == v@[i as int]);
        }
        assert(spec_range_version(v@.skip(i as int)) =~= v@.skip(i as int));
    }
    let mut r: Vec<char> = Vec::new();
    let mut k: usize = i;
    while k < v.len()
        invariant
            i <= k <= v@.len(),
            r@ =~= v@.subrange(i as int, k as int),
        decreases v@.len() - k,
    {
        r.push(v[k]);
        k = k + 1;
    }
    proof {
        assert(r@ =~= v@.skip(i as int));
    }
    r
}

/// Parse `package.json`: the `dependencies` and `devDependencies`
/// entries become placeholder records whose versions are the declared
/// ranges trimmed to their first digit or `*`.
pub fn parse_package_json(content: &str) -> (r: Vec<Dependency>)
    ensures
        all_placeholder(r@, Ecosystem::Node),
{
    let mut r: Vec<Dependency> = Vec::new();
    let doc = match json_parse(content) {
        Ok(d) => d,
        Err(_) => {
            return r;
        },
    };
    let mut which: u8 = 0;
    while which < 2
        invariant
            all_placeholder(r@, Ecosystem::Node),
        decreases 2 - which,
    {
        let section = if which == 0 {
            "dependencies"
        } else {
            "devDependencies"
        };
        if let Some(pkgs) = json_get(&doc, section) {
            if let Some(entries) = json_object_entries(pkgs) {
                let mut e: usize = 0;
                while e < entries.len()
                    invariant
                        all_placeholder(r@, Ecosystem::Node),
                    decreases entries@.len() - e,
                {
                    let version = match json_as_str(&entries[e].1) {
                        Some(s) => string_of(&range_version(&chars_of(s.as_str()))),
                        None => String::from_str("*"),
                    };
                    r.push(make_dep(entries[e].0.clone(), version, None));
                    e = e + 1;
                }
            }
        }
        which = which + 1;
    }
    r
}

/// Is this yarn.lock line a header (unindented, ends with `:`)?
fn is_yarn_header(line: &Vec<char>) -> (r: bool)
{
    line.len() > 0 && line[0] != ' ' && line[0] != '\t' && line[0] != '#' && line[line.len() - 1]
        == ':'
}

/// The package name of a yarn.lock header spec such as
/// `"@scope/pkg@^1.0.0":` — the characters before the `@` that
/// separates name and range, keeping one leading `@` for scopes.
fn yarn_header_name(line: &Vec<char>) -> (r: Option<Vec<char>>)
{
    // strip quotes and the trailing ':', then cut at the first comma
    let mut t: Vec<char> = Vec::new();
    let mut i: usize = 0;
    while i < line.len()
        invariant
            i <= line@.len(),
            t@.len() <= i,
        decreases line@.len() - i,
    {
        let c = line[i];
        if c == ',' {
            i = line.len();
        } else {
            if c != '"' && c != ':' {
                t.push(c);
            }
            i = i + 1;
        }
    }
    if t.len() == 0 {
        return None;
    }
    // the name ends at the first '@' after position 0
    let mut cut: usize = 0;
    let mut j: usize = 1;
    while j < t.len()
        invariant
            1 <= j <= t@.len(),
            cut < j,
        decreases t@.len() - j,
    {
        if t[j] == '@' && cut == 0 {
            cut = j;
            j = t.len();
        } else {
            j = j + 1;
        }
    }
    if cut == 0 {
        return None;
    }
    let mut name: Vec<char> = Vec::new();
    let mut k: usize = 0;
    while k < cut
        invariant
            k <= cut,
            cut <= t@.len(),
        decreases cut - k,
    {
        name.push(t[k]);
        k = k + 1;
    }
    Some(name)
}

/// The version of a yarn.lock entry body line: `version "x.y.z"`.
fn yarn_version_line(line: &Vec<char>) -> (r: Option<Vec<char>>)
{
    let t = trim_chars(line);
    let prefix = chars_of("version ");
    proof {
        reveal_strlit("version ");
    }
    if t.len() < prefix.len() {
        return None;
    }
    let mut k: usize = 0;
    while k < prefix.len()
        invariant
            k <= prefix@.len(),
            prefix@.len() <= t@.len(),
        decreases prefix@.len() - k,
    {
        if t[k] != prefix[k] {
            return None;
        }
        k = k + 1;
    }
    // collect the characters between the quotes
    let mut version: Vec<char> = Vec::new();
    let mut inside: bool = false;
    let mut i: usize = prefix.len();
    while i < t.len()
        invariant
            prefix@.len() <= i <= t@.len(),
        decreases t@.len() - i,
    {
        let c = t[i];
        if c == '"' {
            if inside {
                i = t.len();
            } else {
                inside = true;
                i = i + 1;
            }
        } else {
            if inside {
                version.push(c);
            }
            i = i + 1;
        }
    }
    if version.len() == 0 {
        None
    } else {
        Some(version)
    }
}

/// Parse `yarn.lock`: every header entry whose body names a pinned
/// `version` becomes one placeholder record.
pub fn parse_yarn_lock(content: &str) -> (r: Vec<Dependency>)
    ensures
        all_placeholder(r@, Ecosystem::Node),
        forall|i: int| 0 <= i < r@.len() ==> bare_license(#[trigger] r@[i]),
{
    let v = chars_of(content);
    let nl = chars_of("\n");
    proof {
        reveal_strlit("\n");
    }
    let lines = crate::text::split_chars(&v, &nl);
    let mut r: Vec<Dependency> = Vec::new();
    let mut i: usize = 0;
    while i < lines.len()
        invariant
            i <= lines@.len(),
            all_placeholder(r@, Ecosystem::Node),
            forall|k: int| 0 <= k < r@.len() ==> bare_license(#[trigger] r@[k]),
        decreases lines@.len() - i,
    {
        if is_yarn_header(&lines[i]) {
            if let Some(name) = yarn_header_name(&lines[i]) {
                // look ahead for `version "x.y.z"` until a blank line
                let mut version: Option<Vec<char>> = None;
                let mut j: usize = i + 1;
                while j < lines.len()
                    invariant
                        i < j <= lines@.len(),
                    decreases lines@.len() - j,
                {
                    if lines[j].len() == 0 {
                        j = lines.len();
                    } else {
                        match yarn_version_line(&lines[j]) {
                            Some(ver) => {
                                version = Some(ver);
                                j = lines.len();
                            },
                            None => {
                                j = j + 1;
                            },
                        }
                    }
                }
                if let Some(ver) = version {
                    r.push(make_dep(string_of(&name), string_of(&ver), None));
                }
            }
        }
        i = i + 1;
    }
    r
}

} // verus!

//! Analyzer for Python projects.
//!
//! Sources in priority order: `Pipfile.lock` (pinned), then
//! `requirements.txt`, then `pyproject.toml`. Results are
//! deduplicated by package name, case-insensitively.

use vstd::prelude::*;

use crate::aggregate::merge_dependencies;
use crate::analyzer::{all_placeholder, bare_license, placeholder_record};
use crate::json::{json_get, json_as_str, json_object_entries, json_parse};
use crate::models::{Dependency, Ecosystem, LicenseRisk, LicenseSource, PolicyVerdict};
use crate::text::{chars_of, copy_range, spec_trim, string_of, trim_chars, is_space, leading_spaces,
    spec_split, split_chars};
use crate::tomlread::{toml_get, toml_as_array, toml_as_str, toml_parse};

verus! {

/// Analyzer for Python projects managed by pip / Poetry / Pipenv.
pub struct PythonAnalyzer;

impl PythonAnalyzer {
    /// Create a new `PythonAnalyzer`.
    pub fn new() -> Self {
        Self
    }

    /// Analyze the manifest contents found in a project directory:
    /// all sources are parsed, concatenated in priority order and
    /// deduplicated case-insensitively by name.
    pub fn analyze_contents(
        &self,
        pipfile_lock: Option<&str>,
        requirements: Option<&str>,
        pyproject: Option<&str>,
    ) -> (r: Vec<Dependency>)
        ensures
            all_placeholder(r@, Ecosystem::Python),
    {
        let mut deps: Vec<Dependency> = Vec::new();
        if let Some(content) = pipfile_lock {
            let mut parsed = parse_pipfile_lock(content);
            append_deps(&mut deps, &mut parsed, Ghost(Ecosystem::Python));
        }
        if let Some(content) = requirements {
            let mut parsed = parse_requirements_txt(content);
            proof {
                assert(all_placeholder(parsed@, Ecosystem::Python));
            }
            append_deps(&mut deps, &mut parsed, Ghost(Ecosystem::Python));
        }
        if let Some(content) = pyproject {
            let mut parsed = parse_pyproject_toml(content);
            append_deps(&mut deps, &mut parsed, Ghost(Ecosystem::Python));
        }
        merge_placeholders(deps, Ghost(Ecosystem::Python))
    }
}

/// Append one placeholder list to another, keeping the invariant.
pub fn append_deps(deps: &mut Vec<Dependency>, parsed: &mut Vec<Dependency>, eco: Ghost<Ecosystem>)
    requires
        all_placeholder(old(deps)@, eco@),
        all_placeholder(old(parsed)@, eco@),
    ensures
        final(deps)@ == old(deps)@ + old(parsed)@,
        all_placeholder(final(deps)@, eco@),
{
    let ghost orig = deps@;
    let ghost extra = parsed@;
    deps.append(parsed);
    proof {
        assert(deps@ == orig + extra);
        assert forall|i: int| 0 <= i < deps@.len() implies placeholder_record(
            #[trigger] deps@[i],
            eco@,
        ) by {
            if i < orig.len() {
                assert(deps@[i] == orig[i]);
            } else {
                assert(deps@[i] == extra[i - orig.len()]);
            }
        }
    }
}

/// Merge with first-occurrence deduplication, keeping the
/// placeholder invariant.
pub fn merge_placeholders(deps: Vec<Dependency>, eco: Ghost<Ecosystem>) -> (r: Vec<Dependency>)
    requires
        all_placeholder(deps@, eco@),
    ensures
        r@ == crate::aggregate::spec_merge(deps@),
        all_placeholder(r@, eco@),
{
    let ghost input = deps@;
    let r = merge_dependencies(deps);
    proof {
        crate::aggregate::lemma_merge_seen_membership(input, Set::empty());
        assert forall|i: int| 0 <= i < r@.len() implies placeholder_record(
            #[trigger] r@[i],
            eco@,
        ) by {
            assert(r@.contains(r@[i]));
            assert(input.contains(r@[i]));
            let j = choose|j: int| 0 <= j < input.len() && input[j] == r@[i];
            assert(placeholder_record(input[j], eco@));
        }
    }
    r
}

/// A placeholder Python dependency with no license information.
pub fn make_dep(name: String, version: String) -> (d: Dependency)
    ensures
        d.name == name,
        d.version == version,
        d.ecosystem == Ecosystem::Python,
        d.license_raw is None,
        d.license_spdx is None,
        d.risk == LicenseRisk::Unknown,
        d.verdict == PolicyVerdict::Warn,
        d.source == LicenseSource::Unknown,
{
    Dependency {
        name,
        version,
        ecosystem: Ecosystem::Python,
        license_raw: None,
        license_spdx: None,
        risk: LicenseRisk::Unknown,
        verdict: PolicyVerdict::Warn,
        source: LicenseSource::Unknown,
    }
}

// ---------------------------------------------------------------------------
// requirements.txt
// ---------------------------------------------------------------------------

/// A character of a package name.
pub open spec fn is_name_char(c: char) -> bool {
    ('A' <= c && c <= 'Z') || ('a' <= c && c <= 'z') || ('0' <= c && c <= '9') || c == '_' || c
        == '-' || c == '.'
}

/// Executable package-name character test.
pub fn is_name_char_exec(c: char) -> (r: bool)
    ensures
        r == is_name_char(c),
{
    ('A' <= c && c <= 'Z') || ('a' <= c && c <= 'z') || ('0' <= c && c <= '9') || c == '_' || c
        == '-' || c == '.'
}

/// Length of the leading run of name characters.
pub open spec fn name_run(s: Seq<char>) -> nat
    decreases s.len(),
{
    if s.len() == 0 || !is_name_char(s[0]) {
        0
    } else {
        1 + name_run(s.drop_first())
    }
}

/// A character of a pinned version (anything but whitespace and `;`).
pub open spec fn is_version_char(c: char) -> bool {
    !is_space(c) && c != ';'
}

/// Length of the leading run of version characters.
pub open spec fn version_run(s: Seq<char>) -> nat
    decreases s.len(),
{
    if s.len() == 0 || !is_version_char(s[0]) {
        0
    } else {
        1 + version_run(s.drop_first())
    }
}

/// Skip clamped to the sequence.
pub open spec fn skipc(s: Seq<char>, n: int) -> Seq<char> {
    if n < 0 {
        s
    } else if n <= s.len() {
        s.skip(n)
    } else {
        s.skip(s.len() as int)
    }
}

/// The `name == version` entry of one `requirements.txt` line, if the
/// line pins one: comments, options, empty lines and range
/// requirements yield nothing.
pub open spec fn spec_req_line(line: Seq<char>) -> Option<(Seq<char>, Seq<char>)> {
    let t = spec_trim(line);
    if t.len() == 0 || t[0] == '#' || t[0] == '-' {
        None
    } else {
        let n = name_run(t) as int;
        if n == 0 {
            None
        } else {
            let r1 = skipc(t, n);
            let r2 = skipc(r1, leading_spaces(r1) as int);
            if r2.len() >= 2 && r2[0] == '=' && r2[1] == '=' {
                let r3 = skipc(r2, 2);
                let r4 = skipc(r3, leading_spaces(r3) as int);
                let v = version_run(r4) as int;
                if v == 0 {
                    None
                } else {
                    Some((t.take(n), r4.take(v)))
                }
            } else {
                None
            }
        }
    }
}

/// A leading run never passes the end of the sequence.
pub proof fn lemma_runs_bounded(s: Seq<char>)
    ensures
        name_run(s) <= s.len(),
        version_run(s) <= s.len(),
        leading_spaces(s) <= s.len(),
    decreases s.len(),
{
    if s.len() > 0 {
        lemma_runs_bounded(s.drop_first());
    }
    crate::text::lemma_leading_spaces(s);
}

/// Length of the leading run of name characters, from a position.
fn scan_name(v: &Vec<char>, from: usize) -> (j: usize)
    requires
        from <= v@.len(),
    ensures
        from <= j <= v@.len(),
        j - from == name_run(v@.skip(from as int)),
{
    let mut j: usize = from;
    while j < v.len() && is_name_char_exec(v[j])
        invariant
            from <= j <= v@.len(),
            name_run(v@.skip(from as int)) == (j - from) + name_run(v@.skip(j as int)),
        decreases v@.len() - j,
    {
        proof {
            assert(v@.skip(j as int)[0] == v@[j as int]);
            assert(v@.skip(j as int).drop_first() =~= v@.skip(j + 1));
        }
        j = j + 1;
    }
    proof {
        if j < v@.len() {
            assert(v@.skip(j as int)[0] == v@[j as int]);
        }
        assert(name_run(v@.skip(j as int)) == 0);
    }
    j
}

/// Length of the leading whitespace run, from a position.
fn scan_spaces(v: &Vec<char>, from: usize) -> (j: usize)
    requires
        from <= v@.len(),
    ensures
        from <= j <= v@.len(),
        j - from == leading_spaces(v@.skip(from as int)),
{
    let mut j: usize = from;
    while j < v.len() && crate::text::is_space_char(v[j])
        invariant
            from <= j <= v@.len(),
            leading_spaces(v@.skip(from as int)) == (j - from) + leading_spaces(v@.skip(j as int)),
        decreases v@.len() - j,
    {
        proof {
            assert(v@.skip(j as int)[0] == v@[j as int]);
            assert(v@.skip(j as int).drop_first() =~= v@.skip(j + 1));
        }
        j = j + 1;
    }
    proof {
        if j < v@.len() {
            assert(v@.skip(j as int)[0] == v@[j as int]);
        }
        assert(leading_spaces(v@.skip(j as int)) == 0);
    }
    j
}

/// Length of the leading run of version characters, from a position.
fn scan_version(v: &Vec<char>, from: usize) -> (j: usize)
    requires
        from <= v@.len(),
    ensures
        from <= j <= v@.len(),
        j - from == version_run(v@.skip(from as int)),
{
    let mut j: usize = from;
    while j < v.len() && !crate::text::is_space_char(v[j]) && v[j] != ';'
        invariant
            from <= j <= v@.len(),
            version_run(v@.skip(from as int)) == (j - from) + version_run(v@.skip(j as int)),
        decreases v@.len() - j,
    {
        proof {
            assert(v@.skip(j as int)[0] == v@[j as int]);
            assert(v@.skip(j as int).drop_first() =~= v@.skip(j + 1));
        }
        j = j + 1;
    }
    proof {
        if j < v@.len() {
            assert(v@.skip(j as int)[0] == v@[j as int]);
        }
        assert(version_run(v@.skip(j as int)) == 0);
    }
    j
}

/// Parse one `requirements.txt` line.
#[verifier::rlimit(50)]
pub fn parse_req_line(line: &Vec<char>) -> (r: Option<(Vec<char>, Vec<char>)>)
    ensures
        match r {
            Some(p) => spec_req_line(line@) == Some((p.0@, p.1@)),
            None => spec_req_line(line@) is None,
        },
{
    let t = trim_chars(line);
    if t.len() == 0 || t[0] == '#' || t[0] == '-' {
        return None;
    }
    proof {
        lemma_runs_bounded(t@);
        assert(t@.skip(0) =~= t@);
    }
    let n = scan_name(&t, 0);
    if n == 0 {
        return None;
    }
    let p1 = scan_spaces(&t, n);
    proof {
        assert(skipc(t@, n as int) =~= t@.skip(n as int));
        lemma_runs_bounded(t@.skip(n as int));
        assert(t@.skip(n as int).skip((p1 - n) as int) =~= t@.skip(p1 as int));
    }
    if t.len() < 2 || p1 > t.len() - 2 || t[p1] != '=' || t[p1 + 1] != '=' {
        proof {
            let r2 = skipc(skipc(t@, n as int), leading_spaces(skipc(t@, n as int)) as int);
            assert(r2 =~= t@.skip(p1 as int));
            if r2.len() >= 2 {
                assert(r2[0] == t@[p1 as int]);
                assert(r2[1] == t@[p1 + 1]);
            }
        }
        return None;
    }
    proof {
        let r2 = skipc(skipc(t@, n as int), leading_spaces(skipc(t@, n as int)) as int);
        assert(r2 =~= t@.skip(p1 as int));
        assert(r2[0] == t@[p1 as int]);
        assert(r2[1] == t@[p1 + 1]);
        assert(skipc(r2, 2) =~= t@.skip(p1 + 2));
    }
    let p2 = scan_spaces(&t, p1 + 2);
    proof {
        lemma_runs_bounded(t@.skip(p1 + 2));
        assert(t@.skip(p1 + 2).skip((p2 - p1 - 2) as int) =~= t@.skip(p2 as int));
    }
    let p3 = scan_version(&t, p2);
    if p3 == p2 {
        return None;
    }
    let name = copy_range(&t, 0, n);
    let version = copy_range(&t, p2, p3);
    proof {
        let r4 = t@.skip(p2 as int);
        assert(name@ =~= t@.take(n as int));
        assert(version@ =~= r4.take(version_run(r4) as int));
    }
    Some((name, version))
}

/// The pinned entries of a `requirements.txt` document, line by line.
pub open spec fn spec_req_entries(lines: Seq<Seq<char>>) -> Seq<(Seq<char>, Seq<char>)>
    decreases lines.len(),
{
    if lines.len() == 0 {
        Seq::empty()
    } else {
        match spec_req_line(lines[0]) {
            Some(p) => seq![p] + spec_req_entries(lines.drop_first()),
            None => spec_req_entries(lines.drop_first()),
        }
    }
}

/// Parse `requirements.txt`: every `name==version` line becomes one
/// placeholder dependency, in order; everything else is skipped.
#[verifier::loop_isolation(false)]
pub fn parse_requirements_txt(content: &str) -> (r: Vec<Dependency>)
    ensures
        ({
            let entries = spec_req_entries(spec_split(content@, "\n"@));
            &&& r@.len() == entries.len()
            &&& forall|i: int| 0 <= i < entries.len() ==> {
                &&& (#[trigger] r@[i]).name@ == entries[i].0
                &&& r@[i].version@ == entries[i].1
                &&& r@[i].license_raw is None
                &&& r@[i].license_spdx is None
                &&& r@[i].source == LicenseSource::Unknown
            }
            &&& all_placeholder(r@, Ecosystem::Python)
        }),
{
    let v = chars_of(content);
    let nl = chars_of("\n");
    proof {
        reveal_strlit("\n");
    }
    let lines = split_chars(&v, &nl);
    let ghost dv = lines.deep_view();
    let mut r: Vec<Dependency> = Vec::new();
    let ghost mut done: Seq<(Seq<char>, Seq<char>)> = Seq::empty();
    let mut i: usize = 0;
    proof {
        assert(dv.skip(0) =~= dv);
        assert(done + spec_req_entries(dv) =~= spec_req_entries(dv));
    }
    while i < lines.len()
        invariant
            i <= lines@.len(),
            spec_req_entries(dv) == done + spec_req_entries(dv.skip(i as int)),
            r@.len() == done.len(),
            forall|j: int| 0 <= j < done.len() ==> {
                &&& (#[trigger] r@[j]).name@ == done[j].0
                &&& r@[j].version@ == done[j].1
                &&& r@[j].license_raw is None
                &&& r@[j].license_spdx is None
                &&& r@[j].source == LicenseSource::Unknown
                &&& placeholder_record(r@[j], Ecosystem::Python)
            },
        decreases lines@.len() - i,
    {
        proof {
            assert(dv.skip(i as int)[0] == dv[i as int]);
            assert(dv[i as int] == lines@[i as int]@);
            assert(dv.skip(i as int).drop_first() =~= dv.skip(i + 1));
        }
        match parse_req_line(&lines[i]) {
            Some(p) => {
                r.push(make_dep(string_of(&p.0), string_of(&p.1)));
                proof {
                    done = done + seq![(p.0@, p.1@)];
                    assert(spec_req_entries(dv) =~= done + spec_req_entries(dv.skip(i + 1)));
                }
            },
            None => {},
        }
        i = i + 1;
    }
    proof {
        assert(spec_req_entries(dv.skip(lines@.len() as int)) =~= Seq::<(Seq<char>, Seq<char>)>::empty());
        assert(spec_req_entries(dv) =~= done);
    }
    r
}

// ---------------------------------------------------------------------------
// Pipfile.lock and pyproject.toml
// ---------------------------------------------------------------------------

/// Remove every leading `==`.
pub open spec fn spec_strip_eq(s: Seq<char>) -> Seq<char>
    decreases s.len(),
{
    if s.len() >= 2 && s[0] == '=' && s[1] == '=' {
        spec_strip_eq(s.skip(2))
    } else {
        s
    }
}

/// Executable `==` prefix stripping.
pub fn strip_eq_prefix(v: &Vec<char>) -> (r: Vec<char>)
    ensures
        r@ == spec_strip_eq(v@),
    decreases v@.len(),
{
    if v.len() >= 2 && v[0] == '=' && v[1] == '=' {
        let rest = copy_range(v, 2, v.len());
        proof {
            assert(rest@ =~= v@.skip(2));
        }
        strip_eq_prefix(&rest)
    } else {
        crate::text::copy_chars(v)
    }
}

/// Parse `Pipfile.lock`: the `default` and `develop` sections each
/// contribute one placeholder dependency per package, with the pinned
/// version stripped of its `==` prefix (or `*` when absent).
pub fn parse_pipfile_lock(content: &str) -> (r: Vec<Dependency>)
    ensures
        all_placeholder(r@, Ecosystem::Python),
        forall|i: int| 0 <= i < r@.len() ==> bare_license(#[trigger] r@[i]),
{
    let mut r: Vec<Dependency> = Vec::new();
    let doc = match json_parse(content) {
        Ok(d) => d,
        Err(_) => {
            return r;
        },
    };
    let mut which: u8 = 0;
    while which < 2
        invariant
            all_placeholder(r@, Ecosystem::Python),
            forall|i: int| 0 <= i < r@.len() ==> bare_license(#[trigger] r@[i]),
        decreases 2 - which,
    {
        let section = if which == 0 {
            "default"
        } else {
            "develop"
        };
        if let Some(pkgs) = json_get(&doc, section) {
            if let Some(entries) = json_object_entries(pkgs) {
                let mut e: usize = 0;
                while e < entries.len()
                    invariant
                        all_placeholder(r@, Ecosystem::Python),
                        forall|i: int| 0 <= i < r@.len() ==> bare_license(#[trigger] r@[i]),
                    decreases entries@.len() - e,
                {
                    let version: String = match json_get(&entries[e].1, "version") {
                        Some(vv) => match json_as_str(vv) {
                            Some(s) => string_of(&strip_eq_prefix(&chars_of(s.as_str()))),
                            None => String::from_str("*"),
                        },
                        None => String::from_str("*"),
                    };
                    r.push(make_dep(entries[e].0.clone(), version));
                    e = e + 1;
                }
            }
        }
        which = which + 1;
    }
    r
}

/// A character of an optional pyproject version pin (anything but
/// whitespace, `;`, `,` and `[`).
pub open spec fn is_pyver_char(c: char) -> bool {
    !is_space(c) && c != ';' && c != ',' && c != '['
}

/// Length of the leading run of pyproject version characters.
pub open spec fn pyver_run(s: Seq<char>) -> nat
    decreases s.len(),
{
    if s.len() == 0 || !is_pyver_char(s[0]) {
        0
    } else {
        1 + pyver_run(s.drop_first())
    }
}

/// The `(name, version)` of one pyproject dependency string: a
/// leading package name, optionally pinned with `==`; any other
/// constraint keeps the version `*`.
pub open spec fn spec_pyproject_dep(s: Seq<char>) -> Option<(Seq<char>, Seq<char>)> {
    let n = name_run(s) as int;
    if n == 0 {
        None
    } else {
        let r1 = skipc(s, n);
        let r2 = skipc(r1, leading_spaces(r1) as int);
        if r2.len() >= 2 && r2[0] == '=' && r2[1] == '=' {
            let r3 = skipc(r2, 2);
            let r4 = skipc(r3, leading_spaces(r3) as int);
            let v = pyver_run(r4) as int;
            if v == 0 {
                Some((s.take(n), "*"@))
            } else {
                Some((s.take(n), r4.take(v)))
            }
        } else {
            Some((s.take(n), "*"@))
        }
    }
}

/// Length of the leading run of pyproject version characters, from a
/// position.
fn scan_pyver(v: &Vec<char>, from: usize) -> (j: usize)
    requires
        from <= v@.len(),
    ensures
        from <= j <= v@.len(),
        j - from == pyver_run(v@.skip(from as int)),
{
    let mut j: usize = from;
    while j < v.len() && !crate::text::is_space_char(v[j]) && v[j] != ';' && v[j] != ',' && v[j]
        != '['
        invariant
            from <= j <= v@.len(),
            pyver_run(v@.skip(from as int)) == (j - from) + pyver_run(v@.skip(j as int)),
        decreases v@.len() - j,
    {
        proof {
            assert(v@.skip(j as int)[0] == v@[j as int]);
            assert(v@.skip(j as int).drop_first() =~= v@.skip(j + 1));
        }
        j = j + 1;
    }
    proof {
        if j < v@.len() {
            assert(v@.skip(j as int)[0] == v@[j as int]);
        }
        assert(pyver_run(v@.skip(j as int)) == 0);
    }
    j
}

/// Parse one pyproject dependency string.
#[verifier::rlimit(50)]
pub fn parse_pyproject_dep(s: &Vec<char>) -> (r: Option<(Vec<char>, Vec<char>)>)
    ensures
        match r {
            Some(p) => spec_pyproject_dep(s@) == Some((p.0@, p.1@)),
            None => spec_pyproject_dep(s@) is None,
        },
{
    proof {
        lemma_runs_bounded(s@);
        assert(s@.skip(0) =~= s@);
    }
    let n = scan_name(s, 0);
    if n == 0 {
        return None;
    }
    let name = copy_range(s, 0, n);
    proof {
        assert(name@ =~= s@.take(n as int));
    }
    let p1 = scan_spaces(s, n);
    proof {
        assert(skipc(s@, n as int) =~= s@.skip(n as int));
        lemma_runs_bounded(s@.skip(n as int));
        assert(s@.skip(n as int).skip((p1 - n) as int) =~= s@.skip(p1 as int));
    }
    if s.len() < 2 || p1 > s.len() - 2 || s[p1] != '=' || s[p1 + 1] != '=' {
        proof {
            let r2 = skipc(skipc(s@, n as int), leading_spaces(skipc(s@, n as int)) as int);
            assert(r2 =~= s@.skip(p1 as int));
            if r2.len() >= 2 {
                assert(r2[0] == s@[p1 as int]);
                assert(r2[1] == s@[p1 + 1]);
            }
        }
        return Some((name, chars_of("*")));
    }
    proof {
        let r2 = skipc(skipc(s@, n as int), leading_spaces(skipc(s@, n as int)) as int);
        assert(r2 =~= s@.skip(p1 as int));
        assert(r2[0] == s@[p1 as int]);
        assert(r2[1] == s@[p1 + 1]);
        assert(skipc(r2, 2) =~= s@.skip(p1 + 2));
    }
    let p2 = scan_spaces(s, p1 + 2);
    proof {
        lemma_runs_bounded(s@.skip(p1 + 2));
        assert(s@.skip(p1 + 2).skip((p2 - p1 - 2) as int) =~= s@.skip(p2 as int));
    }
    let p3 = scan_pyver(s, p2);
    if p3 == p2 {
        return Some((name, chars_of("*")));
    }
    let version = copy_range(s, p2, p3);
    proof {
        let r4 = s@.skip(p2 as int);
        assert(version@ =~= r4.take(pyver_run(r4) as int));
    }
    Some((name, version))
}

/// Parse `pyproject.toml`: each entry of `[project].dependencies`
/// that names a package becomes one placeholder dependency.
pub fn parse_pyproject_toml(content: &str) -> (r: Vec<Dependency>)
    ensures
        all_placeholder(r@, Ecosystem::Python),
        forall|i: int| 0 <= i < r@.len() ==> bare_license(#[trigger] r@[i]),
{
    let mut r: Vec<Dependency> = Vec::new();
    let doc = match toml_parse(content) {
        Ok(d) => d,
        Err(_) => {
            return r;
        },
    };
    let project = match toml_get(&doc, "project") {
        Some(p) => p,
        None => {
            return r;
        },
    };
    let dep_list = match toml_get(project, "dependencies") {
        Some(d) => d,
        None => {
            return r;
        },
    };
    let arr = match toml_as_array(dep_list) {
        Some(a) => a,
        None => {
            return r;
        },
    };
    let mut e: usize = 0;
    while e < arr.len()
        invariant
            all_placeholder(r@, Ecosystem::Python),
            forall|i: int| 0 <= i < r@.len() ==> bare_license(#[trigger] r@[i]),
        decreases arr@.len() - e,
    {
        if let Some(dep_str) = toml_as_str(&arr[e]) {
            if let Some(p) = parse_pyproject_dep(&chars_of(dep_str.as_str())) {
                r.push(make_dep(string_of(&p.0), string_of(&p.1)));
            }
        }
        e = e + 1;
    }
    r
}

} // verus!

//! Dependency aggregation: merging analyzer outputs with
//! first-occurrence deduplication, the classification pass that fills
//! in risk and verdict, enrichment write-back and the exit signal.

use vstd::prelude::*;

use crate::config::{Config, spec_apply_policy, apply_policy};
use crate::license::classifier::{classify, spec_classify};
use crate::models::{Dependency, Ecosystem, LicenseSource, PolicyVerdict, ProjectScan};
use crate::text::{chars_of, chars_eq, lower_seq, to_lower};

verus! {

/// The deduplication key of a dependency: ecosystems key by name and
/// version, except Python, which keys case-insensitively by name only.
pub open spec fn spec_dedup_key(d: Dependency) -> Seq<char> {
    match d.ecosystem {
        Ecosystem::Python => lower_seq(d.name@),
        _ => d.name@ + "@"@ + d.version@,
    }
}

/// Executable deduplication key.
pub fn dedup_key(d: &Dependency) -> (k: Vec<char>)
    ensures
        k@ == spec_dedup_key(*d),
{
    let name = chars_of(d.name.as_str());
    match d.ecosystem {
        Ecosystem::Python => to_lower(&name),
        _ => {
            let mut k = name;
            k.push('@');
            let version = chars_of(d.version.as_str());
            let mut i: usize = 0;
            while i < version.len()
                invariant
                    i <= version@.len(),
                    k@ =~= d.name@ + seq!['@'] + version@.take(i as int),
                decreases version@.len() - i,
            {
                k.push(version[i]);
                i = i + 1;
            }
            proof {
                reveal_strlit("@");
                assert(k@ =~= spec_dedup_key(*d));
            }
            k
        },
    }
}

/// First-occurrence merge: keep each dependency whose key has not been
/// seen yet, in input order.
pub open spec fn spec_merge_seen(s: Seq<Dependency>, seen: Set<Seq<char>>) -> Seq<Dependency>
    decreases s.len(),
{
    if s.len() == 0 {
        Seq::empty()
    } else if seen.contains(spec_dedup_key(s[0])) {
        spec_merge_seen(s.drop_first(), seen)
    } else {
        seq![s[0]] + spec_merge_seen(s.drop_first(), seen.insert(spec_dedup_key(s[0])))
    }
}

/// First-occurrence merge starting from nothing seen.
pub open spec fn spec_merge(s: Seq<Dependency>) -> Seq<Dependency> {
    spec_merge_seen(s, Set::empty())
}

/// The keys already seen, as a set.
pub open spec fn key_set(keys: Seq<Vec<char>>) -> Set<Seq<char>> {
    keys.map_values(|k: Vec<char>| k@).to_set()
}

/// Has this key been recorded?
fn seen_contains(seen: &Vec<Vec<char>>, key: &Vec<char>) -> (r: bool)
    ensures
        r == key_set(seen@).contains(key@),
{
    let ghost m = seen@.map_values(|k: Vec<char>| k@);
    let mut i: usize = 0;
    while i < seen.len()
        invariant
            i <= seen@.len(),
            m == seen@.map_values(|k: Vec<char>| k@),
            forall|j: int| 0 <= j < i ==> seen@[j]@ != key@,
        decreases seen@.len() - i,
    {
        if chars_eq(&seen[i], key) {
            proof {
                assert(m[i as int] == key@);
                assert(m.contains(key@));
            }
            return true;
        }
        i = i + 1;
    }
    proof {
        if m.contains(key@) {
            let j = choose|j: int| 0 <= j < m.len() && m[j] == key@;
            assert(seen@[j]@ == key@);
        }
    }
    false
}

/// Merge a flat dependency list, keeping only the first occurrence of
/// every key.
#[verifier::loop_isolation(false)]
pub fn merge_dependencies(deps: Vec<Dependency>) -> (r: Vec<Dependency>)
    ensures
        r@ == spec_merge(deps@),
{
    let mut out: Vec<Dependency> = Vec::new();
    let mut seen: Vec<Vec<char>> = Vec::new();
    let mut i: usize = 0;
    proof {
        assert(deps@.skip(0) =~= deps@);
        assert(key_set(seen@) =~= Set::<Seq<char>>::empty());
        assert(out@ + spec_merge_seen(deps@, Set::empty()) =~= spec_merge(deps@));
    }
    while i < deps.len()
        invariant
            i <= deps@.len(),
            spec_merge(deps@) == out@ + spec_merge_seen(deps@.skip(i as int), key_set(seen@)),
        decreases deps@.len() - i,
    {
        let key = dedup_key(&deps[i]);
        proof {
            assert(deps@.skip(i as int)[0] == deps@[i as int]);
            assert(deps@.skip(i as int).drop_first() =~= deps@.skip(i + 1));
        }
        if !seen_contains(&seen, &key) {
            let ghost spre = seen@;
            out.push(deps[i].clone_dep());
            seen.push(key);
            proof {
                spre.map_values(|k: Vec<char>| k@).lemma_push_to_set_commute(seen@.last()@);
                assert(spre.map_values(|k: Vec<char>| k@).push(seen@.last()@) =~= seen@.map_values(
                    |k: Vec<char>| k@,
                ));
                assert(key_set(seen@) =~= key_set(spre).insert(spec_dedup_key(deps@[i as int])));
                assert(out@ + spec_merge_seen(deps@.skip(i + 1), key_set(seen@)) =~= out@.drop_last()
                    + (seq![deps@[i as int]] + spec_merge_seen(deps@.skip(i + 1), key_set(seen@))));
            }
        }
        i = i + 1;
    }
    proof {
        assert(deps@.skip(deps@.len() as int).len() == 0);
        assert(out@ =~= spec_merge(deps@));
    }
    out
}

/// The merged list never carries two dependencies with the same key,
/// and no key already seen.
pub proof fn lemma_merge_seen_unique(s: Seq<Dependency>, seen: Set<Seq<char>>)
    ensures
        forall|i: int| 0 <= i < spec_merge_seen(s, seen).len() ==> !seen.contains(
            spec_dedup_key(#[trigger] spec_merge_seen(s, seen)[i]),
        ),
        forall|i: int, j: int| 0 <= i < j < spec_merge_seen(s, seen).len() ==> spec_dedup_key(
            spec_merge_seen(s, seen)[i],
        ) != spec_dedup_key(spec_merge_seen(s, seen)[j]),
    decreases s.len(),
{
    if s.len() > 0 {
        let k0 = spec_dedup_key(s[0]);
        let whole = spec_merge_seen(s, seen);
        if seen.contains(k0) {
            lemma_merge_seen_unique(s.drop_first(), seen);
            let rest = spec_merge_seen(s.drop_first(), seen);
            assert forall|i: int| 0 <= i < whole.len() implies !seen.contains(
                spec_dedup_key(#[trigger] whole[i]),
            ) by {
                assert(whole[i] == rest[i]);
            }
            assert forall|i: int, j: int| 0 <= i < j < whole.len() implies spec_dedup_key(
                whole[i],
            ) != spec_dedup_key(whole[j]) by {
                assert(whole[i] == rest[i]);
                assert(whole[j] == rest[j]);
            }
        } else {
            lemma_merge_seen_unique(s.drop_first(), seen.insert(k0));
            let rest = spec_merge_seen(s.drop_first(), seen.insert(k0));
            assert(whole == seq![s[0]] + rest);
            assert forall|i: int| 0 <= i < whole.len() implies !seen.contains(
                spec_dedup_key(#[trigger] whole[i]),
            ) by {
                if i > 0 {
                    assert(whole[i] == rest[i - 1]);
                    assert(!seen.insert(k0).contains(spec_dedup_key(rest[i - 1])));
                }
            }
            assert forall|i: int, j: int| 0 <= i < j < whole.len() implies spec_dedup_key(
                whole[i],
            ) != spec_dedup_key(whole[j]) by {
                assert(whole[j] == rest[j - 1]);
                assert(!seen.insert(k0).contains(spec_dedup_key(rest[j - 1])));
                if i > 0 {
                    assert(whole[i] == rest[i - 1]);
                }
            }
        }
    }
}

/// Every merged record is one of the input records.
pub proof fn lemma_merge_seen_membership(s: Seq<Dependency>, seen: Set<Seq<char>>)
    ensures
        forall|x: Dependency| #[trigger] spec_merge_seen(s, seen).contains(x) ==> s.contains(x),
    decreases s.len(),
{
    if s.len() > 0 {
        let k0 = spec_dedup_key(s[0]);
        let whole = spec_merge_seen(s, seen);
        if seen.contains(k0) {
            lemma_merge_seen_membership(s.drop_first(), seen);
            assert(whole == spec_merge_seen(s.drop_first(), seen));
            assert forall|x: Dependency| whole.contains(x) implies s.contains(x) by {
                assert(spec_merge_seen(s.drop_first(), seen).contains(x));
                let j = choose|j: int|
                    0 <= j < s.drop_first().len() && s.drop_first()[j] == x;
                assert(s[j + 1] == x);
            }
        } else {
            lemma_merge_seen_membership(s.drop_first(), seen.insert(k0));
            let rest = spec_merge_seen(s.drop_first(), seen.insert(k0));
            assert(whole == seq![s[0]] + rest);
            assert forall|x: Dependency| whole.contains(x) implies s.contains(x) by {
                let i = choose|i: int| 0 <= i < whole.len() && whole[i] == x;
                if i == 0 {
                    assert(s[0] == x);
                } else {
                    assert(rest[i - 1] == x);
                    assert(rest.contains(x));
                    let j = choose|j: int|
                        0 <= j < s.drop_first().len() && s.drop_first()[j] == x;
                    assert(s[j + 1] == x);
                }
            }
        }
    }
}

/// Deduplication law: the merged list holds at most one dependency
/// for any key, so exact repeats from overlapping sources collapse to
/// a single record.
pub proof fn lemma_merge_unique_keys(s: Seq<Dependency>)
    ensures
        forall|i: int, j: int| 0 <= i < j < spec_merge(s).len() ==> spec_dedup_key(
            spec_merge(s)[i],
        ) != spec_dedup_key(spec_merge(s)[j]),
{
    lemma_merge_seen_unique(s, Set::empty());
}

/// The license string a dependency is judged by: the normalized SPDX
/// field if present, else the raw field, else "unknown".
pub open spec fn spec_effective_license(d: Dependency) -> Seq<char> {
    match d.license_spdx {
        Some(s) => s@,
        None => match d.license_raw {
            Some(r) => r@,
            None => "unknown"@,
        },
    }
}

/// Executable effective license.
pub fn effective_license(d: &Dependency) -> (r: String)
    ensures
        r@ == spec_effective_license(*d),
{
    match &d.license_spdx {
        Some(s) => s.clone(),
        None => match &d.license_raw {
            Some(r) => r.clone(),
            None => String::from_str("unknown"),
        },
    }
}

impl Dependency {
    /// An exact copy of the record.
    pub fn clone_dep(&self) -> (r: Dependency)
        ensures
            r == *self,
    {
        Dependency {
            name: self.name.clone(),
            version: self.version.clone(),
            ecosystem: self.ecosystem,
            license_raw: match &self.license_raw {
                Some(s) => Some(s.clone()),
                None => None,
            },
            license_spdx: match &self.license_spdx {
                Some(s) => Some(s.clone()),
                None => None,
            },
            risk: self.risk,
            verdict: self.verdict,
            source: self.source,
        }
    }
}

/// A dependency after the classification pass: the risk tier and the
/// policy verdict are both computed from the effective license; every
/// other field is kept.
pub open spec fn spec_classified(cfg: Config, d: Dependency) -> Dependency {
    Dependency {
        risk: spec_classify(spec_effective_license(d)),
        verdict: spec_apply_policy(cfg, spec_effective_license(d)),
        ..d
    }
}

/// Classify one dependency and apply the policy to it.
pub fn classify_dependency(config: &Config, d: &Dependency) -> (r: Dependency)
    ensures
        r == spec_classified(*config, *d),
{
    let license = effective_license(d);
    let risk = classify(license.as_str());
    let verdict = apply_policy(config, Some(license.as_str()));
    let mut r = d.clone_dep();
    r.risk = risk;
    r.verdict = verdict;
    r
}

/// Classify a whole dependency list and apply the policy to each
/// record; order and every other field are kept.
pub fn classify_dependencies(config: &Config, deps: &Vec<Dependency>) -> (r: Vec<Dependency>)
    ensures
        r@.len() == deps@.len(),
        forall|i: int| 0 <= i < deps@.len() ==> r@[i] == spec_classified(*config, deps@[i]),
{
    let mut r: Vec<Dependency> = Vec::new();
    let mut i: usize = 0;
    while i < deps.len()
        invariant
            i <= deps@.len(),
            r@.len() == i,
            forall|j: int| 0 <= j < i ==> r@[j] == spec_classified(*config, deps@[j]),
        decreases deps@.len() - i,
    {
        r.push(classify_dependency(config, &deps[i]));
        i = i + 1;
    }
    r
}

/// A dependency after a registry lookup: a fetched license fills both
/// license fields and marks the registry as the source; a failed or
/// empty lookup leaves the record unchanged.
pub open spec fn spec_enriched(d: Dependency, fetched: Option<String>) -> Dependency {
    match fetched {
        Some(l) => Dependency {
            license_raw: Some(l),
            license_spdx: Some(l),
            source: LicenseSource::Registry,
            ..d
        },
        None => d,
    }
}

/// Write a registry lookup result back into a dependency.
pub fn apply_enrichment(d: &Dependency, fetched: Option<String>) -> (r: Dependency)
    ensures
        r == spec_enriched(*d, fetched),
{
    match fetched {
        Some(l) => {
            let mut r = d.clone_dep();
            r.license_raw = Some(l.clone());
            r.license_spdx = Some(l);
            r.source = LicenseSource::Registry;
            r
        },
        None => d.clone_dep(),
    }
}

/// Does any dependency carry an Error verdict?
pub fn has_errors(deps: &Vec<Dependency>) -> (r: bool)
    ensures
        r == exists|i: int| 0 <= i < deps@.len() && deps@[i].verdict == PolicyVerdict::Error,
{
    let mut i: usize = 0;
    while i < deps.len()
        invariant
            i <= deps@.len(),
            forall|j: int| 0 <= j < i ==> deps@[j].verdict != PolicyVerdict::Error,
        decreases deps@.len() - i,
    {
        if deps[i].verdict == PolicyVerdict::Error {
            return true;
        }
        i = i + 1;
    }
    false
}

/// Does any dependency of any sub-project carry an Error verdict?
pub fn workspace_has_errors(projects: &Vec<ProjectScan>) -> (r: bool)
    ensures
        r == exists|i: int, j: int|
            0 <= i < projects@.len() && 0 <= j < projects@[i].deps@.len()
                && projects@[i].deps@[j].verdict == PolicyVerdict::Error,
{
    let mut i: usize = 0;
    while i < projects.len()
        invariant
            i <= projects@.len(),
            forall|k: int, j: int|
                0 <= k < i && 0 <= j < projects@[k].deps@.len() ==> projects@[k].deps@[j].verdict
                    != PolicyVerdict::Error,
        decreases projects@.len() - i,
    {
        if has_errors(&projects[i].deps) {
            return true;
        }
        i = i + 1;
    }
    false
}

/// Sub-projects that found at least one dependency.
#[verifier::loop_isolation(false)]
pub fn retain_non_empty(projects: Vec<ProjectScan>) -> (r: Vec<ProjectScan>)
    ensures
        r@ == projects@.filter(|p: ProjectScan| p.deps@.len() > 0),
{
    let ghost all = projects@;
    let mut rest = projects;
    let total: usize = rest.len();
    let mut r: Vec<ProjectScan> = Vec::new();
    let mut i: usize = 0;
    proof {
        reveal_with_fuel(Seq::<ProjectScan>::filter, 1);
        assert(all.take(0) =~= Seq::<ProjectScan>::empty());
        assert(all.take(0).filter(|p: ProjectScan| p.deps@.len() > 0) =~= Seq::<
            ProjectScan,
        >::empty());
        assert(all.skip(0) =~= all);
    }
    while rest.len() > 0
        invariant
            all.len() == total,
            i + rest@.len() == all.len(),
            rest@ == all.skip(i as int),
            r@ == all.take(i as int).filter(|p: ProjectScan| p.deps@.len() > 0),
        decreases rest@.len(),
    {
        proof {
            assert(all.skip(i as int)[0] == all[i as int]);
            assert(all.skip(i as int).drop_first() =~= all.skip(i + 1));
        }
        let p = rest.remove(0);
        proof {
            reveal_with_fuel(Seq::<ProjectScan>::filter, 2);
            assert(all.take(i + 1).drop_last() =~= all.take(i as int));
            assert(all.take(i + 1).last() == all[i as int]);
        }
        if p.deps.len() > 0 {
            r.push(p);
        }
        i = i + 1;
    }
    proof {
        assert(all.take(all.len() as int) =~= all);
    }
    r
}

/// The batch boundaries for enrichment: `[k*batch, min((k+1)*batch, n))`
/// for each `k`, covering `0..n` without overlap.
pub fn batch_ranges(n: usize, batch: usize) -> (r: Vec<(usize, usize)>)
    requires
        batch > 0,
    ensures
        forall|k: int| 0 <= k < r@.len() ==> (#[trigger] r@[k]).0 == k * batch && r@[k].1 == (if (k
            + 1) * batch <= n {
            (k + 1) * batch
        } else {
            n as int
        }),
        r@.len() == 0 <==> n == 0,
        r@.len() > 0 ==> r@[r@.len() - 1].1 == n,
{
    let mut r: Vec<(usize, usize)> = Vec::new();
    let mut lo: usize = 0;
    proof {
        assert(r@.len() == 0);
        assert(r@.len() * batch == 0) by (nonlinear_arith)
            requires
                r@.len() == 0,
        ;
    }
    while lo < n
        invariant
            lo <= n,
            batch > 0,
            lo == n || r@.len() * batch == lo,
            r@.len() == 0 ==> lo == 0,
            n == 0 ==> r@.len() == 0,
            forall|k: int| 0 <= k < r@.len() ==> (#[trigger] r@[k]).0 == k * batch && r@[k].1 == (
            if (k + 1) * batch <= n {
                (k + 1) * batch
            } else {
                n as int
            }),
            r@.len() > 0 ==> r@[r@.len() - 1].1 == lo,
        decreases n - lo,
    {
        let hi: usize = if n - lo > batch {
            lo + batch
        } else {
            n
        };
        proof {
            assert((r@.len() + 1) * batch == lo + batch) by (nonlinear_arith)
                requires
                    r@.len() * batch == lo,
            ;
        }
        r.push((lo, hi));
        lo = if hi - lo == batch {
            hi
        } else {
            n
        };
        proof {
            if lo < n {
                assert(r@.len() * batch == lo);
            }
        }
    }
    r
}

} // verus!

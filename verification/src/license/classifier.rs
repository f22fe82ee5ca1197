//! Risk classification of raw license strings, including compound
//! SPDX `OR` / `AND` expressions, `WITH` exception clauses, slash
//! shorthand lists and proprietary keywords.

use vstd::prelude::*;

use crate::models::LicenseRisk;
use crate::license::spdx::{classify_spdx_chars, normalize_chars, spec_classify_spdx_id,
    spec_normalize};
use crate::text::{chars_of, chars_eq_str, contains_chars, contains_sub, lower_seq, slash_to_or,
    spec_split, spec_trim, split_chars, to_lower, trim_chars, replace_slash_or};

verus! {

/// Risk of one expression part: the `WITH` exception clause is
/// stripped and the base identifier is looked up.
pub open spec fn spec_classify_single(id: Seq<char>) -> LicenseRisk {
    spec_classify_spdx_id(spec_split(id, " WITH "@)[0])
}

/// Most permissive of a list of risks (used for `OR` lists).
pub open spec fn spec_most_permissive(risks: Seq<LicenseRisk>) -> LicenseRisk {
    if risks.contains(LicenseRisk::Permissive) {
        LicenseRisk::Permissive
    } else if risks.contains(LicenseRisk::WeakCopyleft) {
        LicenseRisk::WeakCopyleft
    } else if risks.contains(LicenseRisk::StrongCopyleft) {
        LicenseRisk::StrongCopyleft
    } else if risks.contains(LicenseRisk::Proprietary) {
        LicenseRisk::Proprietary
    } else {
        LicenseRisk::Unknown
    }
}

/// Most restrictive of a list of risks (used for `AND` lists).
pub open spec fn spec_most_restrictive(risks: Seq<LicenseRisk>) -> LicenseRisk {
    if risks.contains(LicenseRisk::Proprietary) {
        LicenseRisk::Proprietary
    } else if risks.contains(LicenseRisk::StrongCopyleft) {
        LicenseRisk::StrongCopyleft
    } else if risks.contains(LicenseRisk::WeakCopyleft) {
        LicenseRisk::WeakCopyleft
    } else if risks.contains(LicenseRisk::Permissive) {
        LicenseRisk::Permissive
    } else {
        LicenseRisk::Unknown
    }
}

/// The risks of the parts of `n` split on `sep`, each part trimmed.
pub open spec fn spec_part_risks(n: Seq<char>, sep: Seq<char>) -> Seq<LicenseRisk> {
    spec_split(n, sep).map_values(|p: Seq<char>| spec_classify_single(spec_trim(p)))
}

/// Risk tier of a whole license string.
///
/// Empty or literally "unknown" strings are Unknown; strings naming
/// proprietary or commercial terms are Proprietary; otherwise the
/// string is normalized, slash lists become `OR` lists, and compound
/// expressions are folded part by part.
pub open spec fn spec_classify(s: Seq<char>) -> LicenseRisk {
    let t = spec_trim(s);
    if t.len() == 0 || lower_seq(t) == "unknown"@ {
        LicenseRisk::Unknown
    } else if contains_sub(lower_seq(t), "proprietary"@) || contains_sub(
        lower_seq(t),
        "commercial"@,
    ) {
        LicenseRisk::Proprietary
    } else {
        let n = slash_to_or(spec_normalize(t));
        if contains_sub(n, " OR "@) {
            spec_most_permissive(spec_part_risks(n, " OR "@))
        } else if contains_sub(n, " AND "@) {
            spec_most_restrictive(spec_part_risks(n, " AND "@))
        } else {
            spec_classify_single(spec_trim(n))
        }
    }
}

/// Does the risk list contain the given tier?
fn risk_in(risks: &Vec<LicenseRisk>, r: LicenseRisk) -> (b: bool)
    ensures
        b == risks@.contains(r),
{
    let mut i: usize = 0;
    while i < risks.len()
        invariant
            i <= risks@.len(),
            forall|j: int| 0 <= j < i ==> risks@[j] != r,
        decreases risks@.len() - i,
    {
        if risks[i] == r {
            return true;
        }
        i = i + 1;
    }
    false
}

/// Most permissive risk in the list: Permissive beats WeakCopyleft
/// beats StrongCopyleft beats Proprietary beats Unknown.
pub fn most_permissive(risks: Vec<LicenseRisk>) -> (r: LicenseRisk)
    ensures
        r == spec_most_permissive(risks@),
{
    if risk_in(&risks, LicenseRisk::Permissive) {
        LicenseRisk::Permissive
    } else if risk_in(&risks, LicenseRisk::WeakCopyleft) {
        LicenseRisk::WeakCopyleft
    } else if risk_in(&risks, LicenseRisk::StrongCopyleft) {
        LicenseRisk::StrongCopyleft
    } else if risk_in(&risks, LicenseRisk::Proprietary) {
        LicenseRisk::Proprietary
    } else {
        LicenseRisk::Unknown
    }
}

/// Most restrictive risk in the list: Proprietary beats StrongCopyleft
/// beats WeakCopyleft beats Permissive beats Unknown.
pub fn most_restrictive(risks: Vec<LicenseRisk>) -> (r: LicenseRisk)
    ensures
        r == spec_most_restrictive(risks@),
{
    if risk_in(&risks, LicenseRisk::Proprietary) {
        LicenseRisk::Proprietary
    } else if risk_in(&risks, LicenseRisk::StrongCopyleft) {
        LicenseRisk::StrongCopyleft
    } else if risk_in(&risks, LicenseRisk::WeakCopyleft) {
        LicenseRisk::WeakCopyleft
    } else if risk_in(&risks, LicenseRisk::Permissive) {
        LicenseRisk::Permissive
    } else {
        LicenseRisk::Unknown
    }
}

/// Classify one expression part held as characters.
fn classify_single_chars(id: &Vec<char>) -> (r: LicenseRisk)
    ensures
        r == spec_classify_single(id@),
{
    let with_sep = chars_of(" WITH ");
    proof {
        reveal_strlit(" WITH ");
    }
    let parts = split_chars(id, &with_sep);
    let base = trim_chars(&parts[0]);
    proof {
        assert(parts.deep_view()[0] == spec_split(id@, " WITH "@)[0]);
        assert(parts@[0]@ == spec_split(id@, " WITH "@)[0]);
    }
    classify_spdx_chars(&base)
}

/// Classify one expression part: strip any `WITH` exception clause and
/// look up the base identifier's risk tier.
pub fn classify_single(id: &str) -> (r: LicenseRisk)
    ensures
        r == spec_classify_single(id@),
{
    let v = chars_of(id);
    classify_single_chars(&v)
}

/// Classify the trimmed parts of `n` split on `sep`.
fn classify_parts(n: &Vec<char>, sep: &Vec<char>) -> (risks: Vec<LicenseRisk>)
    requires
        sep@.len() > 0,
    ensures
        risks@ == spec_part_risks(n@, sep@),
{
    let parts = split_chars(n, sep);
    let mut risks: Vec<LicenseRisk> = Vec::new();
    let mut i: usize = 0;
    while i < parts.len()
        invariant
            i <= parts@.len(),
            parts.deep_view() == spec_split(n@, sep@),
            risks@.len() == i,
            forall|j: int| 0 <= j < i ==> risks@[j] == spec_classify_single(
                spec_trim(parts.deep_view()[j]),
            ),
        decreases parts@.len() - i,
    {
        let t = trim_chars(&parts[i]);
        proof {
            assert(parts.deep_view()[i as int] == parts@[i as int]@);
        }
        risks.push(classify_single_chars(&t));
        i = i + 1;
    }
    proof {
        assert(risks@ =~= spec_part_risks(n@, sep@));
    }
    risks
}

/// Classify a license string (raw or SPDX) into a risk level.
///
/// Handles SPDX identifiers, `OR` / `AND` expressions, `WITH`
/// exception clauses, slash-separated lists, proprietary or commercial
/// wording, and empty or unknown strings.
pub fn classify(license: &str) -> (r: LicenseRisk)
    ensures
        r == spec_classify(license@),
{
    let v = chars_of(license);
    let t = trim_chars(&v);
    let lower = to_lower(&t);
    if t.len() == 0 || chars_eq_str(&lower, "unknown") {
        return LicenseRisk::Unknown;
    }
    let prop = chars_of("proprietary");
    let comm = chars_of("commercial");
    proof {
        reveal_strlit("proprietary");
        reveal_strlit("commercial");
    }
    if contains_chars(&lower, &prop) || contains_chars(&lower, &comm) {
        return LicenseRisk::Proprietary;
    }
    let normalized = normalize_chars(&t);
    let n = replace_slash_or(&normalized);
    let or_sep = chars_of(" OR ");
    let and_sep = chars_of(" AND ");
    proof {
        reveal_strlit(" OR ");
        reveal_strlit(" AND ");
    }
    if contains_chars(&n, &or_sep) {
        most_permissive(classify_parts(&n, &or_sep))
    } else if contains_chars(&n, &and_sep) {
        most_restrictive(classify_parts(&n, &and_sep))
    } else {
        let tn = trim_chars(&n);
        classify_single_chars(&tn)
    }
}

} // verus!

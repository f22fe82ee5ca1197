//! SPDX identifier risk table and normalization of common
//! human-readable license names to canonical SPDX identifiers.

use vstd::prelude::*;

use crate::models::LicenseRisk;
use crate::text::{chars_of, chars_eq_str, string_of, spec_trim, trim_chars};

verus! {

/// Canonical SPDX identifiers classified as permissive.
pub open spec fn is_permissive_id(t: Seq<char>) -> bool {
    ||| t == "MIT"@
    ||| t == "Apache-2.0"@
    ||| t == "BSD-2-Clause"@
    ||| t == "BSD-3-Clause"@
    ||| t == "BSD-4-Clause"@
    ||| t == "ISC"@
    ||| t == "0BSD"@
    ||| t == "Unlicense"@
    ||| t == "Zlib"@
    ||| t == "CC0-1.0"@
    ||| t == "WTFPL"@
    ||| t == "CC-BY-4.0"@
    ||| t == "CC-BY-3.0"@
    ||| t == "PSF-2.0"@
    ||| t == "Python-2.0"@
    ||| t == "MIT-0"@
    ||| t == "BlueOak-1.0.0"@
    ||| t == "Artistic-2.0"@
}

/// Canonical SPDX identifiers classified as weak copyleft.
pub open spec fn is_weak_copyleft_id(t: Seq<char>) -> bool {
    ||| t == "LGPL-2.0"@
    ||| t == "LGPL-2.0-only"@
    ||| t == "LGPL-2.0-or-later"@
    ||| t == "LGPL-2.1"@
    ||| t == "LGPL-2.1-only"@
    ||| t == "LGPL-2.1-or-later"@
    ||| t == "LGPL-3.0"@
    ||| t == "LGPL-3.0-only"@
    ||| t == "LGPL-3.0-or-later"@
    ||| t == "MPL-2.0"@
    ||| t == "EUPL-1.2"@
    ||| t == "CDDL-1.0"@
    ||| t == "EPL-1.0"@
    ||| t == "EPL-2.0"@
    ||| t == "APSL-2.0"@
    ||| t == "OSL-3.0"@
}

/// Canonical SPDX identifiers classified as strong copyleft.
pub open spec fn is_strong_copyleft_id(t: Seq<char>) -> bool {
    ||| t == "GPL-2.0"@
    ||| t == "GPL-2.0-only"@
    ||| t == "GPL-2.0-or-later"@
    ||| t == "GPL-3.0"@
    ||| t == "GPL-3.0-only"@
    ||| t == "GPL-3.0-or-later"@
    ||| t == "AGPL-3.0"@
    ||| t == "AGPL-3.0-only"@
    ||| t == "AGPL-3.0-or-later"@
    ||| t == "EUPL-1.1"@
}

/// Risk tier of a single canonical SPDX identifier, after trimming.
pub open spec fn spec_classify_spdx_id(id: Seq<char>) -> LicenseRisk {
    let t = spec_trim(id);
    if is_permissive_id(t) {
        LicenseRisk::Permissive
    } else if is_weak_copyleft_id(t) {
        LicenseRisk::WeakCopyleft
    } else if is_strong_copyleft_id(t) {
        LicenseRisk::StrongCopyleft
    } else {
        LicenseRisk::Unknown
    }
}

/// Classify a single canonical SPDX identifier into a risk level.
pub fn classify_spdx_id(id: &str) -> (r: LicenseRisk)
    ensures
        r == spec_classify_spdx_id(id@),
{
    let v = chars_of(id);
    let t = trim_chars(&v);
    classify_spdx_chars(&t)
}

/// Classify an already-trimmed identifier held as characters.
pub fn classify_spdx_chars(t: &Vec<char>) -> (r: LicenseRisk)
    requires
        t@ == spec_trim(t@),
    ensures
        r == spec_classify_spdx_id(t@),
{
    if chars_eq_str(t, "MIT") || chars_eq_str(t, "Apache-2.0") || chars_eq_str(t, "BSD-2-Clause")
        || chars_eq_str(t, "BSD-3-Clause") || chars_eq_str(t, "BSD-4-Clause") || chars_eq_str(
        t,
        "ISC",
    ) || chars_eq_str(t, "0BSD") || chars_eq_str(t, "Unlicense") || chars_eq_str(t, "Zlib")
        || chars_eq_str(t, "CC0-1.0") || chars_eq_str(t, "WTFPL") || chars_eq_str(t, "CC-BY-4.0")
        || chars_eq_str(t, "CC-BY-3.0") || chars_eq_str(t, "PSF-2.0") || chars_eq_str(
        t,
        "Python-2.0",
    ) || chars_eq_str(t, "MIT-0") || chars_eq_str(t, "BlueOak-1.0.0") || chars_eq_str(
        t,
        "Artistic-2.0",
    ) {
        LicenseRisk::Permissive
    } else if chars_eq_str(t, "LGPL-2.0") || chars_eq_str(t, "LGPL-2.0-only") || chars_eq_str(
        t,
        "LGPL-2.0-or-later",
    ) || chars_eq_str(t, "LGPL-2.1") || chars_eq_str(t, "LGPL-2.1-only") || chars_eq_str(
        t,
        "LGPL-2.1-or-later",
    ) || chars_eq_str(t, "LGPL-3.0") || chars_eq_str(t, "LGPL-3.0-only") || chars_eq_str(
        t,
        "LGPL-3.0-or-later",
    ) || chars_eq_str(t, "MPL-2.0") || chars_eq_str(t, "EUPL-1.2") || chars_eq_str(t, "CDDL-1.0")
        || chars_eq_str(t, "EPL-1.0") || chars_eq_str(t, "EPL-2.0") || chars_eq_str(t, "APSL-2.0")
        || chars_eq_str(t, "OSL-3.0") {
        LicenseRisk::WeakCopyleft
    } else if chars_eq_str(t, "GPL-2.0") || chars_eq_str(t, "GPL-2.0-only") || chars_eq_str(
        t,
        "GPL-2.0-or-later",
    ) || chars_eq_str(t, "GPL-3.0") || chars_eq_str(t, "GPL-3.0-only") || chars_eq_str(
        t,
        "GPL-3.0-or-later",
    ) || chars_eq_str(t, "AGPL-3.0") || chars_eq_str(t, "AGPL-3.0-only") || chars_eq_str(
        t,
        "AGPL-3.0-or-later",
    ) || chars_eq_str(t, "EUPL-1.1") {
        LicenseRisk::StrongCopyleft
    } else {
        LicenseRisk::Unknown
    }
}

/// Canonical SPDX spelling of common human-readable license names;
/// anything not in the alias table is returned trimmed but unchanged.
pub open spec fn spec_normalize(raw: Seq<char>) -> Seq<char> {
    let t = spec_trim(raw);
    if t == "Apache 2.0"@ || t == "Apache License 2.0"@ || t == "Apache License, Version 2.0"@ {
        "Apache-2.0"@
    } else if t == "MIT License"@ || t == "The MIT License"@ {
        "MIT"@
    } else if t == "BSD"@ || t == "BSD License"@ {
        "BSD-3-Clause"@
    } else if t == "BSD 2-Clause"@ || t == "Simplified BSD"@ {
        "BSD-2-Clause"@
    } else if t == "BSD 3-Clause"@ || t == "New BSD"@ || t == "Modified BSD"@ {
        "BSD-3-Clause"@
    } else if t == "GNU GPL v2"@ || t == "GNU General Public License v2"@ || t == "GPL v2"@ || t
        == "GPLv2"@ {
        "GPL-2.0"@
    } else if t == "GNU GPL v3"@ || t == "GNU General Public License v3"@ || t == "GPL v3"@ || t
        == "GPLv3"@ {
        "GPL-3.0"@
    } else if t == "GNU LGPL v2.1"@ || t == "LGPL v2.1"@ || t == "LGPLv2.1"@ {
        "LGPL-2.1"@
    } else if t == "GNU LGPL v3"@ || t == "LGPL v3"@ || t == "LGPLv3"@ {
        "LGPL-3.0"@
    } else if t == "Mozilla Public License 2.0"@ || t == "MPL 2.0"@ || t == "MPLv2"@ {
        "MPL-2.0"@
    } else if t == "ISC License"@ {
        "ISC"@
    } else if t == "CC0"@ || t == "Public Domain"@ {
        "CC0-1.0"@
    } else if t == "AGPL v3"@ || t == "AGPLv3"@ || t == "GNU AGPL v3"@ {
        "AGPL-3.0"@
    } else {
        t
    }
}

/// Normalize common non-SPDX strings to their SPDX equivalents.
pub fn normalize(raw: &str) -> (r: String)
    ensures
        r@ == spec_normalize(raw@),
{
    let v = chars_of(raw);
    let t = trim_chars(&v);
    let n = normalize_chars(&t);
    string_of(&n)
}

/// Normalization on an already-trimmed character vector.
pub fn normalize_chars(t: &Vec<char>) -> (r: Vec<char>)
    requires
        t@ == spec_trim(t@),
    ensures
        r@ == spec_normalize(t@),
{
    let alias: &str = if chars_eq_str(t, "Apache 2.0") || chars_eq_str(t, "Apache License 2.0")
        || chars_eq_str(t, "Apache License, Version 2.0") {
        "Apache-2.0"
    } else if chars_eq_str(t, "MIT License") || chars_eq_str(t, "The MIT License") {
        "MIT"
    } else if chars_eq_str(t, "BSD") || chars_eq_str(t, "BSD License") {
        "BSD-3-Clause"
    } else if chars_eq_str(t, "BSD 2-Clause") || chars_eq_str(t, "Simplified BSD") {
        "BSD-2-Clause"
    } else if chars_eq_str(t, "BSD 3-Clause") || chars_eq_str(t, "New BSD") || chars_eq_str(
        t,
        "Modified BSD",
    ) {
        "BSD-3-Clause"
    } else if chars_eq_str(t, "GNU GPL v2") || chars_eq_str(t, "GNU General Public License v2")
        || chars_eq_str(t, "GPL v2") || chars_eq_str(t, "GPLv2") {
        "GPL-2.0"
    } else if chars_eq_str(t, "GNU GPL v3") || chars_eq_str(t, "GNU General Public License v3")
        || chars_eq_str(t, "GPL v3") || chars_eq_str(t, "GPLv3") {
        "GPL-3.0"
    } else if chars_eq_str(t, "GNU LGPL v2.1") || chars_eq_str(t, "LGPL v2.1") || chars_eq_str(
        t,
        "LGPLv2.1",
    ) {
        "LGPL-2.1"
    } else if chars_eq_str(t, "GNU LGPL v3") || chars_eq_str(t, "LGPL v3") || chars_eq_str(
        t,
        "LGPLv3",
    ) {
        "LGPL-3.0"
    } else if chars_eq_str(t, "Mozilla Public License 2.0") || chars_eq_str(t, "MPL 2.0")
        || chars_eq_str(t, "MPLv2") {
        "MPL-2.0"
    } else if chars_eq_str(t, "ISC License") {
        "ISC"
    } else if chars_eq_str(t, "CC0") || chars_eq_str(t, "Public Domain") {
        "CC0-1.0"
    } else if chars_eq_str(t, "AGPL v3") || chars_eq_str(t, "AGPLv3") || chars_eq_str(
        t,
        "GNU AGPL v3",
    ) {
        "AGPL-3.0"
    } else {
        return crate::text::copy_chars(t);
    };
    chars_of(alias)
}

} // verus!

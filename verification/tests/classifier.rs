use license_checkr::license::classifier::{classify, classify_single, most_permissive,
    most_restrictive};
use license_checkr::license::spdx::{classify_spdx_id, normalize};
use license_checkr::models::LicenseRisk;

#[test]
fn test_or_expression() {
    assert_eq!(classify("MIT OR GPL-3.0"), LicenseRisk::Permissive);
}

#[test]
fn classifier_test_slash_separator() {
    assert_eq!(classify("MIT/Apache-2.0"), LicenseRisk::Permissive);
    assert_eq!(classify("MIT/GPL-3.0"), LicenseRisk::Permissive);
    assert_eq!(classify("GPL-3.0/LGPL-3.0"), LicenseRisk::WeakCopyleft);
}

#[test]
fn test_and_expression() {
    assert_eq!(classify("MIT AND GPL-3.0"), LicenseRisk::StrongCopyleft);
}

#[test]
fn test_proprietary() {
    assert_eq!(classify("Proprietary"), LicenseRisk::Proprietary);
    assert_eq!(classify("commercial license"), LicenseRisk::Proprietary);
}

#[test]
fn test_unknown() {
    assert_eq!(classify(""), LicenseRisk::Unknown);
    assert_eq!(classify("unknown"), LicenseRisk::Unknown);
    assert_eq!(classify("CUSTOM-LICENSE-42"), LicenseRisk::Unknown);
}

#[test]
fn test_with_exception() {
    assert_eq!(
        classify("GPL-2.0 WITH Classpath-exception-2.0"),
        LicenseRisk::StrongCopyleft
    );
}

#[test]
fn test_classify_permissive() {
    assert_eq!(classify_spdx_id("MIT"), LicenseRisk::Permissive);
    assert_eq!(classify_spdx_id("Apache-2.0"), LicenseRisk::Permissive);
    assert_eq!(classify_spdx_id("BSD-3-Clause"), LicenseRisk::Permissive);
}

#[test]
fn test_classify_strong_copyleft() {
    assert_eq!(classify_spdx_id("GPL-3.0"), LicenseRisk::StrongCopyleft);
    assert_eq!(classify_spdx_id("AGPL-3.0"), LicenseRisk::StrongCopyleft);
}

#[test]
fn test_classify_weak_copyleft() {
    assert_eq!(classify_spdx_id("LGPL-2.1"), LicenseRisk::WeakCopyleft);
    assert_eq!(classify_spdx_id("MPL-2.0"), LicenseRisk::WeakCopyleft);
}

#[test]
fn test_normalize() {
    assert_eq!(normalize("MIT License"), "MIT");
    assert_eq!(normalize("Apache License 2.0"), "Apache-2.0");
}

#[test]
fn test_normalize_keeps_unknown_aliases() {
    assert_eq!(normalize("  SSPL-1.0  "), "SSPL-1.0");
    assert_eq!(normalize("GPLv3"), "GPL-3.0");
    assert_eq!(normalize("Public Domain"), "CC0-1.0");
}

#[test]
fn test_classify_single_strips_exception() {
    assert_eq!(
        classify_single("LGPL-2.1 WITH a-linking-exception"),
        LicenseRisk::WeakCopyleft
    );
}

#[test]
fn test_risk_joins() {
    let risks = vec![LicenseRisk::StrongCopyleft, LicenseRisk::WeakCopyleft];
    assert_eq!(most_permissive(risks), LicenseRisk::WeakCopyleft);
    let risks = vec![LicenseRisk::Permissive, LicenseRisk::Proprietary];
    assert_eq!(most_restrictive(risks), LicenseRisk::Proprietary);
    assert_eq!(most_permissive(Vec::new()), LicenseRisk::Unknown);
    assert_eq!(most_restrictive(Vec::new()), LicenseRisk::Unknown);
}

#[test]
fn test_classify_normalizes_aliases() {
    assert_eq!(classify("The MIT License"), LicenseRisk::Permissive);
    assert_eq!(classify("GNU GPL v2"), LicenseRisk::StrongCopyleft);
}

use license_checkr::aggregate::{apply_enrichment, batch_ranges, classify_dependencies,
    effective_license, has_errors, merge_dependencies, retain_non_empty, workspace_has_errors};
use license_checkr::analyzer::rust::{make_deps, parse_cargo_lock};
use license_checkr::cli::{excluded_ecosystems, filter_excluded, EcosystemArg};
use license_checkr::config::Config;
use license_checkr::models::{Dependency, Ecosystem, LicenseRisk, LicenseSource, PolicyVerdict,
    ProjectScan};
use license_checkr::registry::{registry_for, RegistryKind};
use license_checkr::report::{dec_string, format_dep_count_list, format_unix_date, truncate,
    wrap_text};

fn rust_dep(name: &str, version: &str) -> Dependency {
    let pkgs = vec![(name.to_string(), version.to_string())];
    let mut deps = make_deps(pkgs, vec![None]);
    deps.pop().unwrap()
}

#[test]
fn test_aggregator_dedups_exact_repeats() {
    // two analyzer outputs both containing ("serde", "1.0.150") for
    // the Rust ecosystem contribute exactly one record
    let first = rust_dep("serde", "1.0.150");
    let second = rust_dep("serde", "1.0.150");
    let merged = merge_dependencies(vec![first, second]);
    assert_eq!(merged.len(), 1);
    assert_eq!(merged[0].name, "serde");
}

#[test]
fn test_aggregator_keeps_distinct_versions() {
    let merged = merge_dependencies(vec![
        rust_dep("serde", "1.0.150"),
        rust_dep("serde", "1.0.151"),
    ]);
    assert_eq!(merged.len(), 2);
}

#[test]
fn test_end_to_end_enrichment() {
    // a Cargo.lock pinning tokio 1.25.0, no cached license
    let lock = "[[package]]\nname = \"tokio\"\nversion = \"1.25.0\"\nsource = \"registry\"\n";
    let pkgs = parse_cargo_lock(lock);
    assert_eq!(pkgs.len(), 1);
    let deps = make_deps(pkgs, vec![None]);
    let cfg = Config::default();

    let classified = classify_dependencies(&cfg, &deps);
    assert_eq!(classified[0].risk, LicenseRisk::Unknown);
    assert_eq!(classified[0].verdict, PolicyVerdict::Warn);

    // successful enrichment returns "MIT"; re-running classification
    // upgrades the record
    let enriched = apply_enrichment(&classified[0], Some("MIT".to_string()));
    assert_eq!(enriched.source, LicenseSource::Registry);
    let reclassified = classify_dependencies(&cfg, &vec![enriched]);
    assert_eq!(reclassified[0].risk, LicenseRisk::Permissive);
    assert_eq!(reclassified[0].verdict, PolicyVerdict::Pass);
}

#[test]
fn test_enrichment_failure_keeps_prior_state() {
    let dep = rust_dep("tokio", "1.25.0");
    let untouched = apply_enrichment(&dep, None);
    assert_eq!(untouched.license_raw, None);
    assert_eq!(untouched.source, LicenseSource::Unknown);
}

#[test]
fn test_effective_license_precedence() {
    let mut dep = rust_dep("a", "1");
    assert_eq!(effective_license(&dep), "unknown");
    dep.license_raw = Some("BSD".to_string());
    assert_eq!(effective_license(&dep), "BSD");
    dep.license_spdx = Some("BSD-3-Clause".to_string());
    assert_eq!(effective_license(&dep), "BSD-3-Clause");
}

#[test]
fn test_exit_signal() {
    let cfg = Config::default();
    let mut dep = rust_dep("x", "1");
    dep.license_spdx = Some("GPL-3.0".to_string());
    let classified = classify_dependencies(&cfg, &vec![dep]);
    assert!(has_errors(&classified));
    let clean = classify_dependencies(&cfg, &vec![rust_dep("y", "2")]);
    assert!(!has_errors(&clean));

    let projects = vec![
        ProjectScan { name: "a".to_string(), path: "a".to_string(), deps: clean },
        ProjectScan { name: "b".to_string(), path: "b".to_string(), deps: classified },
    ];
    assert!(workspace_has_errors(&projects));
}

#[test]
fn test_retain_non_empty_projects() {
    let projects = vec![
        ProjectScan { name: "a".to_string(), path: "a".to_string(), deps: Vec::new() },
        ProjectScan {
            name: "b".to_string(),
            path: "b".to_string(),
            deps: vec![rust_dep("serde", "1.0.150")],
        },
    ];
    let kept = retain_non_empty(projects);
    assert_eq!(kept.len(), 1);
    assert_eq!(kept[0].name, "b");
}

#[test]
fn test_batch_ranges_cover_everything() {
    assert_eq!(batch_ranges(10, 3), vec![(0, 3), (3, 6), (6, 9), (9, 10)]);
    assert_eq!(batch_ranges(0, 50), Vec::<(usize, usize)>::new());
    assert_eq!(batch_ranges(50, 50), vec![(0, 50)]);
}

#[test]
fn test_registry_selection() {
    assert_eq!(registry_for(Ecosystem::Rust), RegistryKind::CratesIo);
    assert_eq!(registry_for(Ecosystem::Python), RegistryKind::PyPi);
    assert_eq!(registry_for(Ecosystem::Java), RegistryKind::Maven);
    assert_eq!(registry_for(Ecosystem::Node), RegistryKind::Npm);
    assert_eq!(registry_for(Ecosystem::DotNet), RegistryKind::NoRegistry);
}

#[test]
fn test_registry_urls() {
    assert_eq!(
        license_checkr::registry::crates_io::license_url("serde", "1.0.150"),
        "https://crates.io/api/v1/crates/serde/1.0.150"
    );
    assert_eq!(
        license_checkr::registry::pypi::license_url("requests", "2.28.1"),
        "https://pypi.org/pypi/requests/2.28.1/json"
    );
    assert_eq!(
        license_checkr::registry::pypi::license_url("requests", "*"),
        "https://pypi.org/pypi/requests/json"
    );
    assert_eq!(
        license_checkr::registry::npm::license_url("@scope/pkg", "1.2.3"),
        "https://registry.npmjs.org/%40scope%2Fpkg/1.2.3"
    );
    assert_eq!(
        license_checkr::registry::maven::pom_url("org.apache.commons:commons-lang3", "3.12.0"),
        Some(
            "https://repo1.maven.org/maven2/org/apache/commons/commons-lang3/3.12.0/commons-lang3-3.12.0.pom"
                .to_string()
        )
    );
    assert_eq!(license_checkr::registry::maven::pom_url("no-coordinates", "1.0"), None);
}

#[test]
fn test_registry_responses() {
    let crates_body = r#"{ "version": { "license": "MIT" } }"#;
    assert_eq!(
        license_checkr::registry::crates_io::license_from_response(crates_body),
        Some("MIT".to_string())
    );
    let pypi_body = r#"{ "info": { "license": "" } }"#;
    assert_eq!(license_checkr::registry::pypi::license_from_response(pypi_body), None);
    let npm_body = r#"{ "license": "ISC" }"#;
    assert_eq!(
        license_checkr::registry::npm::license_from_response(npm_body, "1.0.0"),
        Some("ISC".to_string())
    );
    let npm_latest = r#"{
        "dist-tags": { "latest": "2.0.0" },
        "versions": { "2.0.0": { "license": "Apache-2.0" } }
    }"#;
    assert_eq!(
        license_checkr::registry::npm::license_from_response(npm_latest, "*"),
        Some("Apache-2.0".to_string())
    );
}

#[test]
fn test_exclusion_filter() {
    let excluded = excluded_ecosystems(&vec![EcosystemArg::Node, EcosystemArg::Dotnet]);
    let kept = filter_excluded(
        vec![Ecosystem::Rust, Ecosystem::Node, Ecosystem::Python],
        &excluded,
    );
    assert_eq!(kept, vec![Ecosystem::Rust, Ecosystem::Python]);
}

#[test]
fn test_report_helpers() {
    assert_eq!(truncate("abcdef", 4), "abc…");
    assert_eq!(truncate("ab", 4), "ab");
    assert_eq!(wrap_text("short", 10), vec!["short"]);
    assert_eq!(wrap_text("alpha beta gamma", 11), vec!["alpha beta", "gamma"]);
    assert_eq!(dec_string(1234), "1234");
    assert_eq!(format_dep_count_list(&Vec::new(), 20), vec!["—"]);
    let names = vec!["serde".to_string(), "tokio".to_string()];
    let lines = format_dep_count_list(&names, 20);
    assert_eq!(lines, vec!["serde, tokio", "2 packages"]);
}

#[test]
fn test_scan_date_format() {
    assert_eq!(format_unix_date(0), "1970-01-01");
    // 19675 days after the epoch, under the flat-year approximation
    assert_eq!(format_unix_date(1_700_000_000), "2023-12-01");
}

#[test]
fn test_labels() {
    assert_eq!(LicenseRisk::WeakCopyleft.label(), "Weak Copyleft");
    assert_eq!(PolicyVerdict::Error.label(), "error");
    assert_eq!(Ecosystem::DotNet.label(), ".NET");
    assert_eq!(LicenseSource::Registry.label(), "registry");
}

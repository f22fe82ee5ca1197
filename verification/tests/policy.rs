use license_checkr::config::{apply_policy, verdict_and, verdict_or, Config, PolicyAction};
use license_checkr::models::PolicyVerdict;

fn default_config() -> Config {
    Config::default()
}

#[test]
fn test_simple_pass() {
    let cfg = default_config();
    assert_eq!(apply_policy(&cfg, Some("MIT")), PolicyVerdict::Pass);
    assert_eq!(apply_policy(&cfg, Some("Apache-2.0")), PolicyVerdict::Pass);
}

#[test]
fn test_or_both_pass() {
    let cfg = default_config();
    assert_eq!(apply_policy(&cfg, Some("MIT OR Apache-2.0")), PolicyVerdict::Pass);
}

#[test]
fn test_or_one_pass_one_error() {
    let cfg = default_config();
    // OR takes the most permissive side
    assert_eq!(apply_policy(&cfg, Some("MIT OR GPL-3.0")), PolicyVerdict::Pass);
}

#[test]
fn test_and_one_error() {
    let cfg = default_config();
    // AND takes the most restrictive side
    assert_eq!(apply_policy(&cfg, Some("MIT AND GPL-3.0")), PolicyVerdict::Error);
}

#[test]
fn config_test_slash_separator() {
    let cfg = default_config();
    assert_eq!(apply_policy(&cfg, Some("MIT/Apache-2.0")), PolicyVerdict::Pass);
}

#[test]
fn test_unknown_falls_back_to_default() {
    let cfg = default_config();
    assert_eq!(apply_policy(&cfg, Some("CUSTOM-LICENSE")), PolicyVerdict::Warn);
}

#[test]
fn test_parentheses_or_then_and() {
    let cfg = default_config();
    // (Apache-2.0 OR MIT) AND BSD-3-Clause: inner OR passes, AND passes
    assert_eq!(
        apply_policy(&cfg, Some("(Apache-2.0 OR MIT) AND BSD-3-Clause")),
        PolicyVerdict::Pass
    );
}

#[test]
fn test_parentheses_or_with_error_then_and() {
    let cfg = default_config();
    // (MIT OR GPL-3.0) AND BSD-3-Clause: inner OR passes via MIT
    assert_eq!(
        apply_policy(&cfg, Some("(MIT OR GPL-3.0) AND BSD-3-Clause")),
        PolicyVerdict::Pass
    );
}

#[test]
fn test_and_precedence_over_or_without_parens() {
    let cfg = default_config();
    // AND binds tighter: MIT OR (GPL-3.0 AND BSD-3-Clause)
    assert_eq!(
        apply_policy(&cfg, Some("MIT OR GPL-3.0 AND BSD-3-Clause")),
        PolicyVerdict::Pass
    );
}

#[test]
fn test_parentheses_force_or_before_and() {
    let cfg = default_config();
    // (MIT OR GPL-3.0) AND GPL-3.0: inner OR passes, AND with GPL-3.0 errors
    assert_eq!(
        apply_policy(&cfg, Some("(MIT OR GPL-3.0) AND GPL-3.0")),
        PolicyVerdict::Error
    );
}

#[test]
fn test_with_exception_ignored() {
    let cfg = default_config();
    // the WITH clause is stripped; the base license decides
    assert_eq!(
        apply_policy(&cfg, Some("GPL-2.0 WITH Classpath-exception-2.0")),
        PolicyVerdict::Error
    );
}

#[test]
fn test_apply_policy_is_deterministic() {
    let cfg = default_config();
    let first = apply_policy(&cfg, Some("MIT OR GPL-3.0 AND BSD-3-Clause"));
    let second = apply_policy(&cfg, Some("MIT OR GPL-3.0 AND BSD-3-Clause"));
    assert_eq!(first, second);
}

#[test]
fn test_verdict_join_values() {
    assert_eq!(verdict_or(PolicyVerdict::Pass, PolicyVerdict::Error), PolicyVerdict::Pass);
    assert_eq!(verdict_and(PolicyVerdict::Pass, PolicyVerdict::Error), PolicyVerdict::Error);
    assert_eq!(verdict_or(PolicyVerdict::Warn, PolicyVerdict::Error), PolicyVerdict::Warn);
    assert_eq!(verdict_and(PolicyVerdict::Warn, PolicyVerdict::Pass), PolicyVerdict::Warn);
}

#[test]
fn test_verdict_join_commutes() {
    let all = [PolicyVerdict::Pass, PolicyVerdict::Warn, PolicyVerdict::Error];
    for a in all {
        for b in all {
            assert_eq!(verdict_or(a, b), verdict_or(b, a));
            assert_eq!(verdict_and(a, b), verdict_and(b, a));
        }
    }
}

#[test]
fn test_missing_license_warns() {
    let cfg = default_config();
    // an absent license counts as the literal "unknown", which warns
    assert_eq!(apply_policy(&cfg, None), PolicyVerdict::Warn);
}

#[test]
fn test_empty_rule_table_uses_default() {
    let cfg = Config {
        policy: license_checkr::config::PolicyConfig {
            default: PolicyAction::Error,
            licenses: Vec::new(),
        },
    };
    assert_eq!(apply_policy(&cfg, Some("MIT")), PolicyVerdict::Error);
}

#[test]
fn test_malformed_expression_recovers() {
    let cfg = default_config();
    // a trailing operator falls back to the default verdict for the
    // missing operand; MIT OR <default Warn> is still Pass
    assert_eq!(apply_policy(&cfg, Some("MIT OR")), PolicyVerdict::Pass);
    // an unmatched closing parenthesis reads as end of expression
    assert_eq!(apply_policy(&cfg, Some("MIT)")), PolicyVerdict::Pass);
    assert_eq!(apply_policy(&cfg, Some("(GPL-3.0")), PolicyVerdict::Error);
}

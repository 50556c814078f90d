//! Decisions of the `run` and `init` commands and build directory names.

use matrix_runner::config::TestCase;
use matrix_runner::fs::build_dir_name;
use matrix_runner::init::{
    generate_default_matrix, init_templates, should_write_config, template_case, wizard_matrix, InitTemplate,
    DEFAULT_CONFIG,
};
use matrix_runner::models::{FailureReason, TestResult};
use matrix_runner::run::{
    config_language_applies, fast_fail_mode, has_unexpected_failures, jobs_for, jobs_to_use, run_failed_message,
    should_stop_remaining, unexpected_failure_indices,
};
use std::time::Duration;

fn case(name: &str, allow: &[&str]) -> TestCase {
    TestCase {
        name: name.to_string(),
        allow_failure: allow.iter().map(|s| s.to_string()).collect(),
        ..TestCase::default()
    }
}

fn failed(c: TestCase) -> TestResult {
    TestResult::Failed { case: c, output: String::new(), reason: FailureReason::TestFailed, duration: Duration::from_secs(1) }
}

#[test]
fn language_of_configuration_applies_without_cli_language() {
    assert!(config_language_applies(&None, "zh-CN"));
    assert!(!config_language_applies(&None, "en"));
    assert!(!config_language_applies(&Some("en".to_string()), "zh-CN"));
    assert!(fast_fail_mode(true, false) && fast_fail_mode(false, true) && !fast_fail_mode(false, false));
}

#[test]
fn jobs_default_to_half_the_cpus_plus_one() {
    assert_eq!(jobs_to_use(Some(4)), 4);
    assert!(jobs_to_use(None) >= 1);
    assert_eq!(jobs_for(None, 8), 5);
    assert_eq!(jobs_for(None, 1), 1);
    assert_eq!(jobs_for(Some(3), 8), 3);
}

#[test]
fn fast_fail_stops_only_on_unexpected_failures_of_safe_cases() {
    let safe = case("s", &[]);
    let flaky = case("f", &["linux"]);
    assert!(should_stop_remaining(true, &safe, &failed(safe.clone()), "linux"));
    assert!(!should_stop_remaining(false, &safe, &failed(safe.clone()), "linux"));
    assert!(!should_stop_remaining(true, &flaky, &failed(flaky.clone()), "linux"));
    assert!(!should_stop_remaining(true, &safe, &TestResult::Skipped, "linux"));
}

#[test]
fn unexpected_failures_are_listed() {
    let results = vec![
        TestResult::Skipped,
        failed(case("a", &[])),
        failed(case("b", &["linux"])),
        failed(case("c", &["windows"])),
    ];
    assert_eq!(unexpected_failure_indices(&results, "linux"), vec![1, 3]);
    assert!(has_unexpected_failures(&results, "linux"));
    assert!(!has_unexpected_failures(&results[..1], "linux"));
    assert_eq!(run_failed_message(), "Matrix tests failed with unexpected errors.");
}

#[test]
fn init_writes_when_absent_or_forced() {
    assert!(should_write_config(false, false));
    assert!(should_write_config(true, true));
    assert!(!should_write_config(true, false));
    assert!(DEFAULT_CONFIG.contains("[[cases]]"));
}

#[test]
fn default_matrix_has_two_cases() {
    let m = generate_default_matrix();
    assert_eq!(m.language, "en");
    assert_eq!(m.cases.len(), 2);
    assert_eq!(m.cases[0].name, "default-features");
    assert!(!m.cases[0].no_default_features);
    assert_eq!(m.cases[1].name, "no-default-features");
    assert!(m.cases[1].no_default_features);
    assert_eq!(m.cases[1].timeout_secs, Some(10));
}

#[test]
fn templates_make_cases() {
    assert_eq!(init_templates().len(), 4);
    let c = template_case(InitTemplate::CustomCommand, "make check".to_string());
    assert_eq!(c.name, "custom-command");
    assert_eq!(c.command.as_deref(), Some("make check"));
    let n = template_case(InitTemplate::NoDefaultFeatures, "core".to_string());
    assert_eq!(n.features, "core");
    assert!(n.no_default_features);
    assert_eq!(InitTemplate::AllFeatures.label_key(), "init_template_all_features");
    assert_eq!(InitTemplate::DefaultFeatures.prompt_key(), None);
    let m = wizard_matrix("zh-CN", vec![n]);
    assert_eq!(m.language, "zh-CN");
    assert_eq!(m.cases.len(), 1);
    let d = wizard_matrix("zh-CN", vec![]);
    assert_eq!(d.language, "en");
    assert_eq!(d.cases.len(), 2);
}

#[test]
fn build_dir_names_are_sanitized() {
    assert_eq!(build_dir_name("std-build"), "matrix_runner_std_build");
    assert_eq!(build_dir_name("feature@1,feature#2"), "matrix_runner_feature_1_feature_2");
    assert_eq!(build_dir_name("测试 1"), "matrix_runner_测试_1");
    assert_eq!(build_dir_name(""), "matrix_runner_");
}

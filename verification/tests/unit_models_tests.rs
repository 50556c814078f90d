//! Results of test cases and Cargo's messages.

use matrix_runner::config::{default_language, TestCase};
use matrix_runner::models::{CargoDiagnostic, CargoMessage, CargoTarget, FailureReason, TestResult};
use std::time::Duration;

/// The operating system the results are judged on.
const OS: &str = "linux";

fn create_test_case(name: &str) -> TestCase {
    TestCase {
        name: name.to_string(),
        features: "".to_string(),
        no_default_features: false,
        command: None,
        allow_failure: vec![],
        arch: vec![],
        retries: None,
        timeout_secs: None,
    }
}

#[test]
fn test_test_result_passed() {
    let case = create_test_case("passed-test");
    let result = TestResult::Passed {
        case: case.clone(),
        output: "Test passed successfully".to_string(),
        duration: Duration::from_secs(1),
        retries: 1,
    };

    match &result {
        TestResult::Passed { case: result_case, output, .. } => {
            assert_eq!(result_case.name, "passed-test");
            assert_eq!(output, "Test passed successfully");
        }
        _ => panic!("Expected Passed variant"),
    }

    assert!(!result.is_unexpected_failure(OS));
}

#[test]
fn test_test_result_failed_unexpected() {
    let case = create_test_case("failed-test");
    let result = TestResult::Failed {
        case: case.clone(),
        output: "Test failed".to_string(),
        reason: FailureReason::TestFailed,
        duration: Duration::from_secs(1),
    };

    match &result {
        TestResult::Failed { case: result_case, output, reason, .. } => {
            assert_eq!(result_case.name, "failed-test");
            assert_eq!(output, "Test failed");
            assert!(matches!(reason, FailureReason::TestFailed));
        }
        _ => panic!("Expected Failed variant"),
    }

    assert!(result.is_unexpected_failure(OS));
}

#[test]
fn test_test_result_failed_allowed() {
    let mut case = create_test_case("allowed-failure-test");
    case.allow_failure = vec![OS.to_string()];

    let result = TestResult::Failed {
        case: case.clone(),
        output: "Test failed but allowed".to_string(),
        reason: FailureReason::Build,
        duration: Duration::from_secs(1),
    };

    assert!(!result.is_unexpected_failure(OS));
}

#[test]
fn test_test_result_skipped() {
    let result = TestResult::Skipped;

    match &result {
        TestResult::Skipped => {}
        _ => panic!("Expected Skipped variant"),
    }

    assert!(!result.is_unexpected_failure(OS));
}

#[test]
fn test_test_result_clone() {
    let case = create_test_case("clone-test");
    let original = TestResult::Passed {
        case: case.clone(),
        output: "Original output".to_string(),
        duration: Duration::from_secs(5),
        retries: 2,
    };

    let cloned = original.clone();

    match (&original, &cloned) {
        (
            TestResult::Passed { case: orig_case, output: orig_output, .. },
            TestResult::Passed { case: clone_case, output: clone_output, .. },
        ) => {
            assert_eq!(orig_case.name, clone_case.name);
            assert_eq!(orig_output, clone_output);
        }
        _ => panic!("Clone should preserve variant type"),
    }
}

#[test]
fn test_failure_reason_variants() {
    let build_failure = FailureReason::Build;
    let test_failure = FailureReason::TestFailed;

    assert_eq!(format!("{:?}", build_failure), "Build");
    assert_eq!(format!("{:?}", test_failure), "TestFailed");
}

#[test]
fn test_failure_reason_clone() {
    let original = FailureReason::Build;
    let cloned = original.clone();

    assert!(matches!(cloned, FailureReason::Build));
}

#[test]
fn test_cargo_diagnostic_clone() {
    let original = CargoDiagnostic {
        level: "error".to_string(),
        message: "test message".to_string(),
        rendered: Some("rendered message".to_string()),
    };

    let cloned = original.clone();

    assert_eq!(original.level, cloned.level);
    assert_eq!(original.message, cloned.message);
    assert_eq!(original.rendered, cloned.rendered);
}

#[test]
fn test_test_case_clone() {
    let original = TestCase {
        name: "clone-test".to_string(),
        features: "feature1".to_string(),
        no_default_features: true,
        command: Some("test command".to_string()),
        allow_failure: vec!["windows".to_string()],
        arch: vec!["x86_64".to_string()],
        timeout_secs: None,
        retries: None,
    };

    let cloned = original.clone();

    assert_eq!(original.name, cloned.name);
    assert_eq!(original.features, cloned.features);
    assert_eq!(original.no_default_features, cloned.no_default_features);
    assert_eq!(original.command, cloned.command);
    assert_eq!(original.allow_failure, cloned.allow_failure);
    assert_eq!(original.arch, cloned.arch);
}

fn failed(name: &str, allow: &[&str], reason: FailureReason) -> TestResult {
    let mut case = create_test_case(name);
    case.allow_failure = allow.iter().map(|s| s.to_string()).collect();
    case.features = "f1,f2".to_string();
    TestResult::Failed { case, output: "boom".to_string(), reason, duration: Duration::from_millis(1500) }
}

#[test]
fn status_class_and_key_follow_allowance_and_timeout() {
    let passed = TestResult::Passed {
        case: create_test_case("p"),
        output: String::new(),
        duration: Duration::from_secs(1),
        retries: 1,
    };
    assert_eq!(passed.get_status_class("linux"), "status-Passed");
    assert_eq!(passed.get_status_key("linux"), "report.status_passed");

    let plain = failed("f", &[], FailureReason::TestFailed);
    assert_eq!(plain.get_status_class("linux"), "status-Failed");
    assert_eq!(plain.get_status_key("linux"), "report.status_failed");

    let timeout = failed("t", &[], FailureReason::Timeout);
    assert_eq!(timeout.get_status_class("linux"), "status-Timeout");
    assert_eq!(timeout.get_status_key("linux"), "report.status_timeout");

    // Allowed takes precedence for the class, the timeout for the key.
    let allowed_timeout = failed("a", &["linux"], FailureReason::Timeout);
    assert_eq!(allowed_timeout.get_status_class("linux"), "status-Allowed-Failure");
    assert_eq!(allowed_timeout.get_status_key("linux"), "report.status_timeout");
    assert_eq!(allowed_timeout.get_status_class("windows"), "status-Timeout");

    let allowed = failed("b", &["linux"], FailureReason::Build);
    assert_eq!(allowed.get_status_key("linux"), "report.status_allowed_failure");
    assert_eq!(allowed.get_status_key("macos"), "report.status_failed");

    assert_eq!(TestResult::Skipped.get_status_class("linux"), "status-Skipped");
    assert_eq!(TestResult::Skipped.get_status_key("linux"), "report.status_skipped");
}

#[test]
fn allowed_and_unexpected_failures_depend_on_os() {
    let r = failed("f", &["windows"], FailureReason::TestFailed);
    assert!(r.is_allowed_failure("windows"));
    assert!(!r.is_unexpected_failure("windows"));
    assert!(!r.is_allowed_failure("linux"));
    assert!(r.is_unexpected_failure("linux"));
    assert!(r.is_failure());
    assert!(!r.is_timeout());
    assert!(failed("t", &[], FailureReason::Timeout).is_timeout());
    assert!(!TestResult::Skipped.is_failure());
    assert!(!TestResult::Skipped.is_allowed_failure("linux"));
}

#[test]
fn accessors_of_each_variant() {
    let r = failed("case-x", &[], FailureReason::CustomCommand);
    assert_eq!(r.case_name(), "case-x");
    assert_eq!(r.get_name(), "case-x");
    assert_eq!(r.get_output(), "boom");
    assert_eq!(r.get_features(), "f1,f2");
    assert_eq!(r.get_duration(), Some(Duration::from_millis(1500)));
    assert_eq!(r.get_retries(), 0);

    let p = TestResult::Passed {
        case: create_test_case("p"),
        output: "out".to_string(),
        duration: Duration::from_secs(3),
        retries: 3,
    };
    assert_eq!(p.get_retries(), 3);
    assert_eq!(p.get_duration(), Some(Duration::from_secs(3)));

    let s = TestResult::Skipped;
    assert_eq!(s.case_name(), "Skipped");
    assert_eq!(s.get_output(), "");
    assert_eq!(s.get_features(), "");
    assert_eq!(s.get_duration(), None);
    assert_eq!(s.get_retries(), 0);
}

#[test]
fn into_artifact_keeps_only_artifacts() {
    let artifact = CargoMessage {
        reason: "compiler-artifact".to_string(),
        target: Some(CargoTarget { name: "c".to_string(), test: true, kind: vec!["lib".to_string()] }),
        executable: Some("/bin/x".to_string()),
        message: None,
        filenames: vec![],
    };
    let kept = artifact.clone().into_artifact().expect("an artifact");
    assert_eq!(kept.executable.as_deref(), Some("/bin/x"));

    let other = CargoMessage { reason: "compiler-message".to_string(), ..artifact };
    assert!(other.into_artifact().is_none());
}

#[test]
fn test_case_defaults() {
    let c = TestCase::default();
    assert_eq!(c.name, "unknown");
    assert_eq!(c.features, "");
    assert!(!c.no_default_features);
    assert!(c.command.is_none() && c.timeout_secs.is_none() && c.retries.is_none());
    assert!(c.allow_failure.is_empty() && c.arch.is_empty());
    assert_eq!(default_language(), "en");
}

#[test]
fn case_os_and_arch_membership() {
    let mut c = create_test_case("c");
    assert!(c.is_for_arch("riscv64"));
    c.arch = vec!["x86_64".to_string(), "aarch64".to_string()];
    assert!(c.is_for_arch("aarch64"));
    assert!(!c.is_for_arch("x86"));
    c.allow_failure = vec!["macos".to_string()];
    assert!(c.is_allowed_to_fail_on("macos"));
    assert!(!c.is_allowed_to_fail_on("mac"));
}

#[test]
fn status_text_follows_the_language_and_the_os() {
    let en = matrix_runner::i18n::init("en").unwrap();
    let zh = matrix_runner::i18n::init("zh-CN").unwrap();
    let mut flaky = create_test_case("flaky");
    flaky.allow_failure = vec!["linux".to_string()];
    let allowed = TestResult::Failed {
        case: flaky,
        output: String::new(),
        reason: FailureReason::TestFailed,
        duration: Duration::from_secs(1),
    };
    assert_eq!(allowed.get_status_str(&en, OS), "Allowed Failure");
    assert_eq!(allowed.get_status_str(&en, "windows"), "Failed");
    assert_eq!(allowed.get_status_str(&zh, OS), "允许的失败");
    assert_eq!(TestResult::Skipped.get_status_str(&zh, OS), "跳过");
    let timed_out = TestResult::Failed {
        case: create_test_case("slow"),
        output: String::new(),
        reason: FailureReason::Timeout,
        duration: Duration::from_secs(10),
    };
    assert_eq!(timed_out.get_status_str(&en, OS), "Timeout");
}

#[test]
fn allow_failure_lists_operating_systems() {
    let mut c = create_test_case("simd");
    c.allow_failure = vec!["windows".to_string(), "aarch64".to_string()];
    assert!(c.is_allowed_to_fail_on("windows"));
    assert!(!c.is_allowed_to_fail_on(OS));
    let r = TestResult::Failed {
        case: c,
        output: String::new(),
        reason: FailureReason::TestFailed,
        duration: Duration::from_secs(1),
    };
    assert!(r.is_unexpected_failure(OS));
    assert!(r.is_allowed_failure("windows"));
}

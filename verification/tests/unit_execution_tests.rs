//! Attempts, custom commands and the results of each step of a case.

use matrix_runner::config::TestCase;
use matrix_runner::execution::{
    after_attempt, build_error_result, build_failure_result, cargo_test_args, custom_command_result,
    max_attempts, no_binaries_result, prepare_custom_command, run_error_result, split_command,
    test_run_result, timeout_result, AttemptStep, CommandError,
};
use matrix_runner::models::{FailureReason, TestResult};
use std::time::Duration;

fn case(name: &str) -> TestCase {
    TestCase { name: name.to_string(), ..TestCase::default() }
}

fn failure(reason: FailureReason) -> TestResult {
    TestResult::Failed { case: case("c"), output: "o".to_string(), reason, duration: Duration::from_secs(2) }
}

#[test]
fn attempts_are_one_plus_retries() {
    assert_eq!(max_attempts(&case("a")), 1);
    let mut c = case("b");
    c.retries = Some(3);
    assert_eq!(max_attempts(&c), 4);
}

#[test]
fn pass_finishes_and_records_the_attempt() {
    let passed = TestResult::Passed {
        case: case("c"),
        output: "ok".to_string(),
        duration: Duration::from_secs(1),
        retries: 1,
    };
    match after_attempt(2, 3, passed) {
        AttemptStep::Finish(TestResult::Passed { retries, output, .. }) => {
            assert_eq!(retries, 2);
            assert_eq!(output, "ok");
        }
        other => panic!("unexpected step {:?}", other),
    }
}

#[test]
fn failure_retries_until_the_last_attempt() {
    assert!(matches!(after_attempt(1, 3, failure(FailureReason::TestFailed)), AttemptStep::Retry(_)));
    assert!(matches!(after_attempt(2, 3, failure(FailureReason::Build)), AttemptStep::Retry(_)));
    match after_attempt(3, 3, failure(FailureReason::TestFailed)) {
        AttemptStep::Finish(r) => assert!(r.is_failure()),
        other => panic!("unexpected step {:?}", other),
    }
}

#[test]
fn timeout_is_never_retried() {
    match after_attempt(1, 5, failure(FailureReason::Timeout)) {
        AttemptStep::Finish(r) => assert!(r.is_timeout()),
        other => panic!("unexpected step {:?}", other),
    }
    let t = timeout_result(case("slow"), "late".to_string(), Duration::from_secs(10));
    assert!(t.is_timeout());
    assert_eq!(t.get_duration(), Some(Duration::from_secs(10)));
    assert_eq!(t.get_output(), "late");
}

#[test]
fn split_command_words() {
    let p = split_command("cargo test -- --my-flag 'two words'").unwrap();
    assert_eq!(p.program, "cargo");
    assert_eq!(p.args, vec!["test", "--", "--my-flag", "two words"]);
    assert_eq!(p.expanded, "cargo test -- --my-flag 'two words'");
    assert!(matches!(split_command("echo 'unclosed"), Err(CommandError::Parse { .. })));
    assert!(matches!(split_command("   "), Err(CommandError::Empty)));
}

#[test]
fn prepare_command_without_variables_is_verbatim() {
    let p = prepare_custom_command("wasm-pack test --node").unwrap();
    assert_eq!(p.expanded, "wasm-pack test --node");
    assert_eq!(p.program, "wasm-pack");
    assert_eq!(p.args, vec!["test", "--node"]);
}

#[test]
fn prepare_command_reports_unknown_variables() {
    let e = prepare_custom_command("echo $MATRIX_RUNNER_SURELY_UNSET_VARIABLE_12345").unwrap_err();
    match &e {
        CommandError::Expansion { command, var_name } => {
            assert_eq!(command, "echo $MATRIX_RUNNER_SURELY_UNSET_VARIABLE_12345");
            assert_eq!(var_name, "MATRIX_RUNNER_SURELY_UNSET_VARIABLE_12345");
        }
        other => panic!("unexpected error {:?}", other),
    }
    assert_eq!(e.message(), "Failed to expand command: echo $MATRIX_RUNNER_SURELY_UNSET_VARIABLE_12345");
    assert_eq!(CommandError::Empty.message(), "Empty command after parsing.");
}

#[test]
fn prepare_command_expands_known_variables() {
    // PATH is set in any environment that can run cargo.
    let p = prepare_custom_command("echo ${PATH}").unwrap();
    assert_eq!(p.program, "echo");
    assert_ne!(p.expanded, "echo ${PATH}");
}

#[test]
fn cargo_arguments_of_a_case() {
    let mut c = case("c");
    let args = cargo_test_args(&c, "/tmp/t", "my-crate");
    assert_eq!(
        args,
        vec!["test", "--no-run", "--message-format=json", "--target-dir", "/tmp/t", "-p", "my-crate"]
    );
    c.no_default_features = true;
    c.features = "a,b".to_string();
    let args = cargo_test_args(&c, "/tmp/t", "my-crate");
    assert_eq!(&args[7..], &["--no-default-features", "--features", "a,b"]);
}

#[test]
fn step_results() {
    let ok = custom_command_result(case("c"), "Command: x\n", "out", true, Duration::from_secs(1));
    match &ok {
        TestResult::Passed { output, retries, .. } => {
            assert_eq!(output, "Command: x\nout");
            assert_eq!(*retries, 1);
        }
        _ => panic!("expected a pass"),
    }
    let bad = custom_command_result(case("c"), "Command: x\n", "err", false, Duration::from_secs(1));
    assert!(matches!(bad, TestResult::Failed { reason: FailureReason::CustomCommand, .. }));

    let run_bad = test_run_result(case("c"), "log\n", "panic", false, Duration::from_secs(4));
    assert!(matches!(run_bad, TestResult::Failed { reason: FailureReason::TestFailed, .. }));
    assert_eq!(run_bad.get_output(), "log\npanic");
    let run_ok = test_run_result(case("c"), "log\n", "ok", true, Duration::from_secs(4));
    assert_eq!(run_ok.get_retries(), 1);

    let build = build_failure_result(case("c"), "E".to_string(), Duration::from_secs(7));
    assert!(matches!(build, TestResult::Failed { reason: FailureReason::Build, .. }));
    let berr = build_error_result(case("c"), "io".to_string());
    assert!(matches!(berr, TestResult::Failed { reason: FailureReason::BuildFailed, .. }));
    assert_eq!(berr.get_duration(), Some(Duration::from_secs(0)));
    let none = no_binaries_result(case("c"), "nothing".to_string(), Duration::from_secs(3));
    assert_eq!(none.get_output(), "nothing");
    assert_eq!(none.get_retries(), 1);
    let rerr = run_error_result(case("c"), "join error".to_string(), Duration::from_secs(0));
    assert!(matches!(rerr, TestResult::Failed { reason: FailureReason::TestFailed, .. }));
}

#[test]
fn the_largest_retry_count_gives_256_attempts() {
    let mut c = case("flaky");
    c.retries = Some(255);
    assert_eq!(max_attempts(&c), 256);
    assert!(matches!(after_attempt(255, 256, failure(FailureReason::TestFailed)), AttemptStep::Retry(_)));
    let passed = TestResult::Passed {
        case: case("c"),
        output: String::new(),
        duration: Duration::from_secs(1),
        retries: 1,
    };
    match after_attempt(256, 256, passed) {
        AttemptStep::Finish(r) => assert_eq!(r.get_retries(), 256),
        other => panic!("unexpected step {:?}", other),
    }
}

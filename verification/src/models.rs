//! Results of test cases and the messages that Cargo reports while building.
use vstd::prelude::*;
use std::time::Duration;
use crate::config::TestCase;
use crate::text::str_equal;
use crate::i18n::{translate, translated, Translations};

verus! {

/// `Duration::clone`: `Duration` is `Copy`, and its clone is the same value.
pub assume_specification[ <Duration as Clone>::clone ](d: &Duration) -> (r: Duration)
    ensures
        r == *d,
;

/// Why a test case failed.
#[derive(Debug, Clone, Copy, PartialEq, Eq, Structural)]
pub enum FailureReason {
    /// The build (`cargo test --no-run`) failed.
    Build,
    /// The build succeeded but the test executable failed.
    TestFailed,
    /// The case exceeded its timeout.
    Timeout,
    /// The case's custom command failed.
    CustomCommand,
    /// The build could not be carried out at all.
    BuildFailed,
}

/// The final result of one test case.
#[derive(Debug, Clone)]
pub enum TestResult {
    /// The case passed.
    Passed {
        case: TestCase,
        output: String,
        duration: Duration,
        /// The attempt on which the case passed (1 for the first try).
        retries: u16,
    },
    /// The case failed.
    Failed {
        case: TestCase,
        output: String,
        reason: FailureReason,
        duration: Duration,
    },
    /// The case was not run.
    Skipped,
}

impl TestResult {
    /// A failure that the case does not allow on `os`.
    pub open spec fn unexpected_on(&self, os: Seq<char>) -> bool {
        match self {
            TestResult::Failed { case, .. } => !case.allows_failure_on(os),
            _ => false,
        }
    }

    /// A failure that the case allows on `os`.
    pub open spec fn allowed_on(&self, os: Seq<char>) -> bool {
        match self {
            TestResult::Failed { case, .. } => case.allows_failure_on(os),
            _ => false,
        }
    }

    /// A failure caused by the timeout.
    pub open spec fn timed_out(&self) -> bool {
        match self {
            TestResult::Failed { reason, .. } => *reason == FailureReason::Timeout,
            _ => false,
        }
    }

    /// The name shown for this result.
    pub open spec fn name_of(&self) -> Seq<char> {
        match self {
            TestResult::Passed { case, .. } => case.name@,
            TestResult::Failed { case, .. } => case.name@,
            TestResult::Skipped => "Skipped"@,
        }
    }

    /// The CSS class of the status cell of this result.
    pub open spec fn status_class_of(&self, os: Seq<char>) -> Seq<char> {
        match self {
            TestResult::Passed { .. } => "status-Passed"@,
            TestResult::Failed { reason, .. } => {
                if self.allowed_on(os) {
                    "status-Allowed-Failure"@
                } else if *reason == FailureReason::Timeout {
                    "status-Timeout"@
                } else {
                    "status-Failed"@
                }
            },
            TestResult::Skipped => "status-Skipped"@,
        }
    }

    /// The translation key of the status text of this result.
    pub open spec fn status_key_of(&self, os: Seq<char>) -> Seq<char> {
        match self {
            TestResult::Passed { .. } => "report.status_passed"@,
            TestResult::Failed { reason, case, .. } => {
                if *reason == FailureReason::Timeout {
                    "report.status_timeout"@
                } else if case.allows_failure_on(os) {
                    "report.status_allowed_failure"@
                } else {
                    "report.status_failed"@
                }
            },
            TestResult::Skipped => "report.status_skipped"@,
        }
    }

    /// Whether this is a failure that the case does not allow on `os`.
    pub fn is_unexpected_failure(&self, os: &str) -> (r: bool)
        ensures
            r == self.unexpected_on(os@),
            r == (self is Failed && !exists|i: int|
                0 <= i < self->Failed_case.allow_failure@.len() && #[trigger] self->Failed_case.allow_failure@[i]@
                    == os@),
    {
        match self {
            TestResult::Failed { case, .. } => !case.is_allowed_to_fail_on(os),
            _ => false,
        }
    }

    /// Whether this is a failure that the case allows on `os`.
    pub fn is_allowed_failure(&self, os: &str) -> (r: bool)
        ensures
            r == self.allowed_on(os@),
            r == (self is Failed && exists|i: int|
                0 <= i < self->Failed_case.allow_failure@.len() && #[trigger] self->Failed_case.allow_failure@[i]@
                    == os@),
    {
        match self {
            TestResult::Failed { case, .. } => case.is_allowed_to_fail_on(os),
            _ => false,
        }
    }

    /// Whether this is a failure of any kind.
    pub fn is_failure(&self) -> (r: bool)
        ensures
            r == (self is Failed),
    {
        match self {
            TestResult::Failed { .. } => true,
            _ => false,
        }
    }

    /// The CSS class of the status cell, for a run on `os`.
    pub fn get_status_class(&self, os: &str) -> (r: &'static str)
        ensures
            r@ == self.status_class_of(os@),
    {
        match self {
            TestResult::Passed { .. } => "status-Passed",
            TestResult::Failed { reason, .. } => {
                if self.is_allowed_failure(os) {
                    "status-Allowed-Failure"
                } else if *reason == FailureReason::Timeout {
                    "status-Timeout"
                } else {
                    "status-Failed"
                }
            },
            TestResult::Skipped => "status-Skipped",
        }
    }

    /// The translation key of the status text, for a run on `os`.
    pub fn get_status_key(&self, os: &str) -> (r: &'static str)
        ensures
            r@ == self.status_key_of(os@),
    {
        match self {
            TestResult::Passed { .. } => "report.status_passed",
            TestResult::Failed { reason, case, .. } => {
                if *reason == FailureReason::Timeout {
                    "report.status_timeout"
                } else if case.is_allowed_to_fail_on(os) {
                    "report.status_allowed_failure"
                } else {
                    "report.status_failed"
                }
            },
            TestResult::Skipped => "report.status_skipped",
        }
    }

    /// The status text in the language of `tr`, for a run on `os` (the key
    /// itself where the table lacks it).
    pub fn get_status_str(&self, tr: &Translations, os: &str) -> (r: String)
        ensures
            r@ == translated(tr.table(), self.status_key_of(os@)),
    {
        translate(tr, self.get_status_key(os))
    }

    /// The name of the case; "Skipped" for a skipped result.
    pub fn case_name(&self) -> (r: &str)
        ensures
            r@ == self.name_of(),
    {
        match self {
            TestResult::Passed { case, .. } => case.name.as_str(),
            TestResult::Failed { case, .. } => case.name.as_str(),
            TestResult::Skipped => "Skipped",
        }
    }

    /// The name of the case; "Skipped" for a skipped result.
    pub fn get_name(&self) -> (r: &str)
        ensures
            r@ == self.name_of(),
    {
        self.case_name()
    }

    /// The output of the case; empty for a skipped result.
    pub fn get_output(&self) -> (r: String)
        ensures
            r@ == match self {
                TestResult::Passed { output, .. } => output@,
                TestResult::Failed { output, .. } => output@,
                TestResult::Skipped => Seq::<char>::empty(),
            },
    {
        match self {
            TestResult::Passed { output, .. } => output.clone(),
            TestResult::Failed { output, .. } => output.clone(),
            TestResult::Skipped => String::new(),
        }
    }

    /// The features of the case; empty for a skipped result.
    pub fn get_features(&self) -> (r: &str)
        ensures
            r@ == match self {
                TestResult::Passed { case, .. } => case.features@,
                TestResult::Failed { case, .. } => case.features@,
                TestResult::Skipped => ""@,
            },
    {
        match self {
            TestResult::Passed { case, .. } => case.features.as_str(),
            TestResult::Failed { case, .. } => case.features.as_str(),
            TestResult::Skipped => "",
        }
    }

    /// How long the case ran; `None` for a skipped result.
    pub fn get_duration(&self) -> (r: Option<Duration>)
        ensures
            r == match self {
                TestResult::Passed { duration, .. } => Some(*duration),
                TestResult::Failed { duration, .. } => Some(*duration),
                TestResult::Skipped => None::<Duration>,
            },
    {
        match self {
            TestResult::Passed { duration, .. } => Some(*duration),
            TestResult::Failed { duration, .. } => Some(*duration),
            TestResult::Skipped => None,
        }
    }

    /// The attempt on which a passed case passed; 0 otherwise.
    pub fn get_retries(&self) -> (r: u16)
        ensures
            r == match self {
                TestResult::Passed { retries, .. } => *retries,
                _ => 0u16,
            },
    {
        match self {
            TestResult::Passed { retries, .. } => *retries,
            _ => 0,
        }
    }

    /// Whether this is a failure caused by the timeout.
    pub fn is_timeout(&self) -> (r: bool)
        ensures
            r == self.timed_out(),
    {
        match self {
            TestResult::Failed { reason, .. } => *reason == FailureReason::Timeout,
            _ => false,
        }
    }
}

/// A diagnostic reported by the compiler.
#[derive(Debug, Clone)]
pub struct CargoDiagnostic {
    /// Severity, such as "error" or "warning".
    pub level: String,
    /// The plain message.
    pub message: String,
    /// The formatted (colored) message, when Cargo gives one.
    pub rendered: Option<String>,
}

/// The compilation target of an artifact.
#[derive(Debug, Clone)]
pub struct CargoTarget {
    /// Name of the crate being compiled.
    pub name: String,
    /// Whether the artifact is a test executable.
    pub test: bool,
    /// Kinds of the target, such as "lib" or "test".
    pub kind: Vec<String>,
}

/// One message of Cargo's JSON output.
#[derive(Debug, Clone)]
pub struct CargoMessage {
    /// Kind of message, such as "compiler-artifact" or "compiler-message".
    pub reason: String,
    /// The target, for artifact messages.
    pub target: Option<CargoTarget>,
    /// The compiled executable, for artifact messages.
    pub executable: Option<String>,
    /// The diagnostic, for compiler messages.
    pub message: Option<CargoDiagnostic>,
    /// Files written for the artifact.
    pub filenames: Vec<String>,
}

impl CargoMessage {
    /// The message itself if it reports a compiled artifact, else `None`.
    pub fn into_artifact(self) -> (r: Option<Self>)
        ensures
            self.reason@ == "compiler-artifact"@ ==> r == Some(self),
            self.reason@ != "compiler-artifact"@ ==> r is None,
    {
        if str_equal(self.reason.as_str(), "compiler-artifact") {
            Some(self)
        } else {
            None
        }
    }
}

/// The `[package]` table of a Cargo manifest.
#[derive(Debug, Clone)]
pub struct Package {
    /// The crate's name.
    pub name: String,
}

/// The parts of a Cargo manifest that the runner reads.
#[derive(Debug, Clone)]
pub struct Manifest {
    /// The `[package]` table.
    pub package: Package,
}

} // verus!

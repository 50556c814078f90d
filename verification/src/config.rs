//! The test matrix configuration: test cases and global settings.
use vstd::prelude::*;
use crate::text::{contains_text, list_contains};

verus! {

/// One test case of the matrix: a single build-and-test configuration.
#[derive(Debug, Clone)]
pub struct TestCase {
    /// Unique, human-readable name of the case.
    pub name: String,
    /// Comma-separated features enabled for this case.
    pub features: String,
    /// Whether `--no-default-features` is passed to Cargo.
    pub no_default_features: bool,
    /// A custom command run in place of the default `cargo test` flow.
    pub command: Option<String>,
    /// Timeout in seconds; a run that exceeds it fails with a timeout.
    pub timeout_secs: Option<u64>,
    /// How many times a failed (non-timeout) run is retried.
    pub retries: Option<u8>,
    /// Operating systems on which this case may fail without failing the run.
    pub allow_failure: Vec<String>,
    /// Architectures this case runs on; empty means every architecture.
    pub arch: Vec<String>,
}

impl Default for TestCase {
    fn default() -> (c: Self)
        ensures
            c.name@ == "unknown"@,
            c.features@ == ""@,
            !c.no_default_features,
            c.command is None,
            c.timeout_secs is None,
            c.retries is None,
            c.allow_failure@.len() == 0,
            c.arch@.len() == 0,
    {
        TestCase {
            name: String::from_str("unknown"),
            features: String::from_str(""),
            no_default_features: false,
            command: None,
            timeout_secs: None,
            retries: None,
            allow_failure: Vec::new(),
            arch: Vec::new(),
        }
    }
}

impl TestCase {
    /// The case may fail on operating system `os` without failing the run.
    pub open spec fn allows_failure_on(&self, os: Seq<char>) -> bool {
        contains_text(self.allow_failure@, os)
    }

    /// The case is meant to run on architecture `arch`.
    pub open spec fn runs_on_arch(&self, arch: Seq<char>) -> bool {
        self.arch@.len() == 0 || contains_text(self.arch@, arch)
    }

    /// Whether `os` is one of the systems on which this case may fail: one of
    /// its `allow_failure` names equals `os` as a whole.
    pub fn is_allowed_to_fail_on(&self, os: &str) -> (r: bool)
        ensures
            r == self.allows_failure_on(os@),
            r == exists|i: int| 0 <= i < self.allow_failure@.len() && #[trigger] self.allow_failure@[i]@ == os@,
    {
        list_contains(&self.allow_failure, os)
    }

    /// Whether this case is meant to run on architecture `arch`: its `arch`
    /// list is empty, or one of its names equals `arch` as a whole.
    pub fn is_for_arch(&self, arch: &str) -> (r: bool)
        ensures
            r == self.runs_on_arch(arch@),
            r == (self.arch@.len() == 0 || exists|i: int| 0 <= i < self.arch@.len() && #[trigger] self.arch@[i]@ == arch@),
    {
        self.arch.len() == 0 || list_contains(&self.arch, arch)
    }
}

/// A case runs on architecture `arch` exactly when its `arch` list is empty
/// or one of its names equals `arch` as a whole string (a name that is only a
/// prefix of `arch`, such as "x86" for "x86_64", does not count).
pub proof fn law_arch_names_match_whole(case: TestCase, arch: Seq<char>)
    ensures
        case.runs_on_arch(arch) <==> (case.arch@.len() == 0 || exists|i: int|
            0 <= i < case.arch@.len() && #[trigger] case.arch@[i]@ == arch),
{
}

/// A case may fail on `os` exactly when one of its `allow_failure` names
/// equals `os` as a whole string.
pub proof fn law_allow_failure_names_match_whole(case: TestCase, os: Seq<char>)
    ensures
        case.allows_failure_on(os) <==> exists|i: int|
            0 <= i < case.allow_failure@.len() && #[trigger] case.allow_failure@[i]@ == os,
{
}

/// The whole test matrix: global settings and every case.
#[derive(Debug)]
pub struct TestMatrix {
    /// Language of the runner's messages (such as "en" or "zh-CN").
    pub language: String,
    /// Every case that may be run.
    pub cases: Vec<TestCase>,
    /// Stop the remaining cases after the first unexpected failure of a case
    /// that is not allowed to fail.
    pub fast_fail: bool,
}

/// The language used when the configuration names none.
pub fn default_language() -> (s: String)
    ensures
        s@ == "en"@,
{
    String::from_str("en")
}

} // verus!

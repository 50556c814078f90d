//! The decisions of running one test case: attempts and retries, the custom
//! command, the arguments of the build and the results of each step.
use vstd::prelude::*;
use std::time::Duration;
use crate::config::TestCase;
use crate::models::{FailureReason, TestResult};
use crate::text::concat;

verus! {

/// What follows an attempt.
#[derive(Debug)]
pub enum AttemptStep {
    /// The case is done, with this result.
    Finish(TestResult),
    /// The attempt failed and another one follows; this was its result.
    Retry(TestResult),
}

/// How many attempts a case gets: one plus its retries.
pub open spec fn attempts_of(case: TestCase) -> nat {
    1 + match case.retries {
        Some(n) => n as nat,
        None => 0nat,
    }
}

/// The number of attempts of a case: one plus its retries (up to 256).
pub fn max_attempts(case: &TestCase) -> (r: u16)
    ensures
        r == attempts_of(*case),
{
    match case.retries {
        Some(n) => 1 + (n as u16),
        None => 1,
    }
}

/// What follows attempt `attempt` of `max_attempts` with result `result`.
pub open spec fn step_of(attempt: u16, max_attempts: u16, result: TestResult) -> AttemptStep {
    match result {
        TestResult::Passed { case, output, duration, .. } => AttemptStep::Finish(
            TestResult::Passed { case, output, duration, retries: attempt },
        ),
        _ => if result.timed_out() || attempt >= max_attempts {
            AttemptStep::Finish(result)
        } else {
            AttemptStep::Retry(result)
        },
    }
}

/// Decides what follows an attempt: a pass ends the case and records the
/// attempt on which it passed; a timeout ends it at once; any other failure
/// is retried until the last attempt, whose result is final.
pub fn after_attempt(attempt: u16, max_attempts: u16, result: TestResult) -> (r: AttemptStep)
    requires
        1 <= attempt <= max_attempts,
    ensures
        r == step_of(attempt, max_attempts, result),
        !(result is Passed) && !(result is Failed && result->Failed_reason == FailureReason::Timeout) && attempt
            < max_attempts ==> r == AttemptStep::Retry(result),
        !(result is Passed) && attempt == max_attempts ==> r == AttemptStep::Finish(result),
        result is Failed && result->Failed_reason == FailureReason::Timeout ==> r == AttemptStep::Finish(result),
{
    match result {
        TestResult::Passed { case, output, duration, .. } => AttemptStep::Finish(
            TestResult::Passed { case, output, duration, retries: attempt },
        ),
        _ => {
            if result.is_timeout() || attempt >= max_attempts {
                AttemptStep::Finish(result)
            } else {
                AttemptStep::Retry(result)
            }
        },
    }
}

/// Every attempt that does not pass and does not time out, whatever its
/// failure reason, is followed by another attempt until the last one: only a
/// pass, a timeout or the last attempt end the case, and a pass ends it with
/// the number of the attempt that passed.
pub proof fn law_failures_are_retried_until_the_last_attempt(attempt: u16, max_attempts: u16, result: TestResult)
    requires
        1 <= attempt <= max_attempts,
    ensures
        !(result is Passed) && !(result is Failed && result->Failed_reason == FailureReason::Timeout) && attempt
            < max_attempts ==> step_of(attempt, max_attempts, result) == AttemptStep::Retry(result),
        !(result is Passed) && attempt == max_attempts ==> step_of(attempt, max_attempts, result)
            == AttemptStep::Finish(result),
        result is Failed && result->Failed_reason == FailureReason::Timeout ==> step_of(
            attempt,
            max_attempts,
            result,
        ) == AttemptStep::Finish(result),
        result matches TestResult::Passed { case, output, duration, .. } ==> step_of(attempt, max_attempts, result)
            == AttemptStep::Finish(TestResult::Passed { case, output, duration, retries: attempt }),
{
}

/// The result of running a case whose attempts give `outcomes` in turn,
/// from attempt `attempt` on.
pub open spec fn drive(outcomes: Seq<TestResult>, attempt: u16, max_attempts: u16) -> TestResult
    decreases max_attempts - attempt,
{
    if attempt < 1 || attempt > max_attempts || attempt > outcomes.len() {
        TestResult::Skipped
    } else {
        match step_of(attempt, max_attempts, outcomes[attempt - 1]) {
            AttemptStep::Finish(r) => r,
            AttemptStep::Retry(_) => if attempt < u16::MAX {
                drive(outcomes, (attempt + 1) as u16, max_attempts)
            } else {
                TestResult::Skipped
            },
        }
    }
}

/// A run of attempts that ends in a pass records the attempt that passed:
/// that attempt passed, and every earlier one failed without a timeout.
pub proof fn law_pass_records_its_attempt(outcomes: Seq<TestResult>, attempt: u16, max_attempts: u16)
    requires
        1 <= attempt <= max_attempts,
        max_attempts <= outcomes.len(),
        drive(outcomes, attempt, max_attempts) is Passed,
    ensures
        ({
            let k = drive(outcomes, attempt, max_attempts)->Passed_retries;
            &&& attempt <= k <= max_attempts
            &&& outcomes[k - 1] is Passed
            &&& forall|j: int| attempt - 1 <= j < k - 1 ==> !(#[trigger] outcomes[j] is Passed) && !outcomes[j].timed_out()
        }),
    decreases max_attempts - attempt,
{
    let o = outcomes[attempt - 1];
    match o {
        TestResult::Passed { .. } => {},
        _ => {
            if !(o.timed_out() || attempt >= max_attempts) {
                law_pass_records_its_attempt(outcomes, (attempt + 1) as u16, max_attempts);
            }
        },
    }
}

/// A run of attempts ends at a timeout: the result is that timeout, and no
/// later attempt is made.
pub proof fn law_timeout_ends_attempts(outcomes: Seq<TestResult>, attempt: u16, max_attempts: u16)
    requires
        1 <= attempt <= max_attempts,
        max_attempts <= outcomes.len(),
        outcomes[attempt - 1].timed_out(),
    ensures
        drive(outcomes, attempt, max_attempts) == outcomes[attempt - 1],
{
}

/// The result of a case whose run exceeded its timeout.
pub fn timeout_result(case: TestCase, message: String, timeout: Duration) -> (r: TestResult)
    ensures
        r == (TestResult::Failed { case, output: message, reason: FailureReason::Timeout, duration: timeout }),
{
    TestResult::Failed { case, output: message, reason: FailureReason::Timeout, duration: timeout }
}

/// What `shlex::split` makes of a text: the words of a POSIX shell command
/// line, or `None` when the text is erroneous (such as an unclosed quote).
pub uninterp spec fn shlex_words(s: Seq<char>) -> Option<Seq<Seq<char>>>;

/// Splits a command line into words with `shlex::split`. The contract claims
/// that the result is `shlex_words` of the text: a function of the text alone.
#[verifier::external_body]
fn split_words(s: &str) -> (r: Option<Vec<String>>)
    ensures
        r is Some <==> shlex_words(s@) is Some,
        r matches Some(v) ==> v@.map_values(|w: String| w@) == shlex_words(s@)->Some_0,
{
    shlex::split(s)
}

/// Expands `~` and environment variables (`$VAR`, `${VAR}`) with
/// `shellexpand::full`; an error gives the name of the variable that could
/// not be looked up. The result depends on the environment; the contract
/// claims only what the source shows for every environment: a text without
/// '$' is expanded without error, and one that also does not start with '~'
/// is left as it is.
#[verifier::external_body]
fn expand_command(s: &str) -> (r: Result<String, String>)
    ensures
        (forall|i: int| 0 <= i < s@.len() ==> s@[i] != '$') ==> r is Ok,
        (forall|i: int| 0 <= i < s@.len() ==> s@[i] != '$') && !(s@.len() > 0 && s@[0] == '~') ==> (r is Ok
            && r->Ok_0@ == s@),
{
    match shellexpand::full(s) {
        Ok(t) => Ok(t.into_owned()),
        Err(e) => Err(e.var_name),
    }
}

/// Why a custom command could not be prepared.
#[derive(Debug, Clone)]
pub enum CommandError {
    /// A variable of the command could not be expanded.
    Expansion { command: String, var_name: String },
    /// The expanded command is not a valid shell command line.
    Parse { command: String },
    /// The expanded command holds no word.
    Empty,
}

impl CommandError {
    /// The message that reports this error.
    pub fn message(&self) -> (r: String)
        ensures
            r@ == match self {
                CommandError::Expansion { command, .. } => "Failed to expand command: "@ + command@,
                CommandError::Parse { command } => "Failed to parse command: "@ + command@,
                CommandError::Empty => "Empty command after parsing."@,
            },
    {
        match self {
            CommandError::Expansion { command, .. } => concat("Failed to expand command: ", command.as_str()),
            CommandError::Parse { command } => concat("Failed to parse command: ", command.as_str()),
            CommandError::Empty => String::from_str("Empty command after parsing."),
        }
    }
}

/// A custom command ready to be run.
#[derive(Debug, Clone)]
pub struct PreparedCommand {
    /// The command after expansion.
    pub expanded: String,
    /// The program: the first word.
    pub program: String,
    /// Its arguments: the other words.
    pub args: Vec<String>,
}

/// The program and arguments of an expanded command line.
pub open spec fn split_spec(expanded: Seq<char>) -> Option<(Seq<char>, Seq<Seq<char>>)> {
    match shlex_words(expanded) {
        Some(w) => if w.len() == 0 {
            None
        } else {
            Some((w[0], w.skip(1)))
        },
        None => None,
    }
}

/// The outcome of splitting an expanded command line: `Parse` when it is
/// not a valid command line, `Empty` when it has no word, else its words.
pub open spec fn split_outcome(expanded: Seq<char>, r: Result<PreparedCommand, CommandError>) -> bool {
    match shlex_words(expanded) {
        None => r is Err && r->Err_0 is Parse && r->Err_0->Parse_command@ == expanded,
        Some(w) => if w.len() == 0 {
            r is Err && r->Err_0 is Empty
        } else {
            &&& r is Ok
            &&& r->Ok_0.expanded@ == expanded
            &&& r->Ok_0.program@ == w[0]
            &&& r->Ok_0.args@.map_values(|a: String| a@) == w.skip(1)
        },
    }
}

/// Splits an expanded command line into its program and arguments.
pub fn split_command(expanded: &str) -> (r: Result<PreparedCommand, CommandError>)
    ensures
        split_outcome(expanded@, r),
{
    match split_words(expanded) {
        None => Err(CommandError::Parse { command: String::from_str(expanded) }),
        Some(mut words) => {
            if words.len() == 0 {
                Err(CommandError::Empty)
            } else {
                let ghost wv = words@.map_values(|a: String| a@);
                let program = words.remove(0);
                assert(words@.map_values(|a: String| a@) =~= wv.skip(1));
                Ok(PreparedCommand { expanded: String::from_str(expanded), program, args: words })
            }
        },
    }
}

/// The text has no '$'.
pub open spec fn without_variables(s: Seq<char>) -> bool {
    forall|i: int| 0 <= i < s.len() ==> s[i] != '$'
}

/// Prepares a custom command: expands it, then splits it into a program and
/// its arguments. Only a command with a '$' can fail to expand; one without
/// '$' that does not start with '~' is split as it is.
pub fn prepare_custom_command(custom_command: &str) -> (r: Result<PreparedCommand, CommandError>)
    ensures
        r is Ok ==> split_outcome(r->Ok_0.expanded@, r),
        (r is Err && !(r->Err_0 is Expansion)) ==> exists|e: Seq<char>| split_outcome(e, r),
        (r is Err && r->Err_0 is Expansion) ==> r->Err_0->Expansion_command@ == custom_command@
            && !without_variables(custom_command@),
        (without_variables(custom_command@) && !(custom_command@.len() > 0 && custom_command@[0] == '~'))
            ==> split_outcome(custom_command@, r),
{
    match expand_command(custom_command) {
        Ok(expanded) => split_command(expanded.as_str()),
        Err(var_name) => Err(CommandError::Expansion { command: String::from_str(custom_command), var_name }),
    }
}

/// The result of a case run by its custom command: the command's log line
/// followed by its output; passed (on the first attempt) when the command
/// succeeded.
pub fn custom_command_result(
    case: TestCase,
    command_log: &str,
    output: &str,
    success: bool,
    duration: Duration,
) -> (r: TestResult)
    ensures
        success ==> (r is Passed && r->Passed_case == case && r->Passed_output@ == command_log@ + output@
            && r->Passed_duration == duration && r->Passed_retries == 1),
        !success ==> (r is Failed && r->Failed_case == case && r->Failed_output@ == command_log@ + output@
            && r->Failed_reason == FailureReason::CustomCommand && r->Failed_duration == duration),
{
    let full = concat(command_log, output);
    if success {
        TestResult::Passed { case, output: full, duration, retries: 1 }
    } else {
        TestResult::Failed { case, output: full, reason: FailureReason::CustomCommand, duration }
    }
}

/// The arguments of the build of a case: `cargo test --no-run` with JSON
/// messages, into `target_dir`, for package `crate_name`, without default
/// features when the case says so, and with its features when it has any.
pub open spec fn cargo_args_of(case: TestCase, target_dir: Seq<char>, crate_name: Seq<char>) -> Seq<Seq<char>> {
    let base = seq!["test"@, "--no-run"@, "--message-format=json"@, "--target-dir"@, target_dir, "-p"@, crate_name];
    let with_default = if case.no_default_features {
        base.push("--no-default-features"@)
    } else {
        base
    };
    if case.features@.len() > 0 {
        with_default.push("--features"@).push(case.features@)
    } else {
        with_default
    }
}

/// `args` holds `flag` immediately followed by `value`.
pub open spec fn flag_with_value(args: Seq<Seq<char>>, flag: Seq<char>, value: Seq<char>) -> bool {
    exists|j: int| 0 <= j && j + 1 < args.len() && #[trigger] args[j] == flag && args[j + 1] == value
}

/// The build's flags follow the case: its features, when it has any, are
/// passed as "--features" immediately followed by the features string,
/// whatever `no_default_features` is; "--no-default-features" is passed
/// exactly when the case asks for it, and "--features" only when it has
/// features (for the converses, the directory, the crate's name and the
/// features must not themselves be one of these flags).
pub proof fn law_build_flags_follow_the_case(case: TestCase, target_dir: Seq<char>, crate_name: Seq<char>)
    ensures
        case.features@.len() > 0 ==> flag_with_value(
            cargo_args_of(case, target_dir, crate_name),
            "--features"@,
            case.features@,
        ),
        case.no_default_features ==> cargo_args_of(case, target_dir, crate_name).contains("--no-default-features"@),
        !case.no_default_features && target_dir != "--no-default-features"@ && crate_name
            != "--no-default-features"@ && case.features@ != "--no-default-features"@ ==> !cargo_args_of(
            case,
            target_dir,
            crate_name,
        ).contains("--no-default-features"@),
        case.features@.len() == 0 && target_dir != "--features"@ && crate_name != "--features"@ ==> !cargo_args_of(
            case,
            target_dir,
            crate_name,
        ).contains("--features"@),
{
    reveal_strlit("test");
    reveal_strlit("--no-run");
    reveal_strlit("--message-format=json");
    reveal_strlit("--target-dir");
    reveal_strlit("-p");
    reveal_strlit("--no-default-features");
    reveal_strlit("--features");
    let a = cargo_args_of(case, target_dir, crate_name);
    let ndf = "--no-default-features"@;
    let ff = "--features"@;
    assert("test"@ != ndf && "--no-run"@ != ndf && "--target-dir"@ != ndf && "-p"@ != ndf && ff != ndf) by {
        assert("test"@.len() != ndf.len());
        assert("--no-run"@.len() != ndf.len());
        assert("--target-dir"@.len() != ndf.len());
        assert("-p"@.len() != ndf.len());
        assert(ff.len() != ndf.len());
    }
    assert("--message-format=json"@ != ndf) by {
        assert("--message-format=json"@[2] != ndf[2]);
    }
    assert("test"@ != ff && "--no-run"@ != ff && "--message-format=json"@ != ff && "--target-dir"@ != ff && "-p"@
        != ff && ndf != ff) by {
        assert("test"@.len() != ff.len());
        assert("--no-run"@.len() != ff.len());
        assert("--message-format=json"@.len() != ff.len());
        assert("--target-dir"@.len() != ff.len());
        assert("-p"@.len() != ff.len());
    }
    if case.features@.len() > 0 {
        let j = a.len() - 2;
        assert(a[j] == ff && a[j + 1] == case.features@);
    }
    if case.no_default_features {
        assert(a[7] == ndf);
    }
}

/// The arguments of `cargo` that build a case's tests.
pub fn cargo_test_args(case: &TestCase, target_dir: &str, crate_name: &str) -> (r: Vec<String>)
    ensures
        r@.map_values(|a: String| a@) == cargo_args_of(*case, target_dir@, crate_name@),
        case.features@.len() > 0 ==> flag_with_value(r@.map_values(|a: String| a@), "--features"@, case.features@),
        case.no_default_features ==> r@.map_values(|a: String| a@).contains("--no-default-features"@),
{
    proof {
        law_build_flags_follow_the_case(*case, target_dir@, crate_name@);
    }
    let mut v: Vec<String> = Vec::new();
    v.push(String::from_str("test"));
    v.push(String::from_str("--no-run"));
    v.push(String::from_str("--message-format=json"));
    v.push(String::from_str("--target-dir"));
    v.push(String::from_str(target_dir));
    v.push(String::from_str("-p"));
    v.push(String::from_str(crate_name));
    if case.no_default_features {
        v.push(String::from_str("--no-default-features"));
    }
    if !case.features.as_str().is_empty() {
        v.push(String::from_str("--features"));
        v.push(case.features.clone());
    }
    assert(v@.map_values(|a: String| a@) =~= cargo_args_of(*case, target_dir@, crate_name@));
    v
}

/// The result of a case whose build failed, with the build's error report.
pub fn build_failure_result(case: TestCase, error_report: String, duration: Duration) -> (r: TestResult)
    ensures
        r == (TestResult::Failed { case, output: error_report, reason: FailureReason::Build, duration }),
{
    TestResult::Failed { case, output: error_report, reason: FailureReason::Build, duration }
}

/// What `Duration::from_secs` returns for `secs`.
pub uninterp spec fn duration_from_secs(secs: u64) -> Duration;

/// `Duration::from_secs`: the duration of `secs` whole seconds. It never
/// panics; the contract names its result, a function of `secs` alone.
#[verifier::external_body]
fn seconds(secs: u64) -> (r: Duration)
    ensures
        r == duration_from_secs(secs),
{
    Duration::from_secs(secs)
}

/// The result of a case whose build could not be carried out at all, with the
/// error's text; its duration is zero.
pub fn build_error_result(case: TestCase, error_text: String) -> (r: TestResult)
    ensures
        r == (TestResult::Failed {
            case,
            output: error_text,
            reason: FailureReason::BuildFailed,
            duration: duration_from_secs(0),
        }),
{
    TestResult::Failed { case, output: error_text, reason: FailureReason::BuildFailed, duration: seconds(0) }
}

/// The result of a case whose build produced no test executable: it passes
/// on the first attempt, with `message` as output and the build's duration.
pub fn no_binaries_result(case: TestCase, message: String, build_duration: Duration) -> (r: TestResult)
    ensures
        r == (TestResult::Passed { case, output: message, duration: build_duration, retries: 1 }),
{
    TestResult::Passed { case, output: message, duration: build_duration, retries: 1 }
}

/// The result of running a built test executable: the log line followed by
/// its output; passed (on the first attempt) when it succeeded, failed as a
/// test failure otherwise.
pub fn test_run_result(
    case: TestCase,
    command_log: &str,
    output: &str,
    success: bool,
    total_duration: Duration,
) -> (r: TestResult)
    ensures
        success ==> (r is Passed && r->Passed_case == case && r->Passed_output@ == command_log@ + output@
            && r->Passed_duration == total_duration && r->Passed_retries == 1),
        !success ==> (r is Failed && r->Failed_case == case && r->Failed_output@ == command_log@ + output@
            && r->Failed_reason == FailureReason::TestFailed && r->Failed_duration == total_duration),
{
    let full = concat(command_log, output);
    if success {
        TestResult::Passed { case, output: full, duration: total_duration, retries: 1 }
    } else {
        TestResult::Failed { case, output: full, reason: FailureReason::TestFailed, duration: total_duration }
    }
}

/// The result of a case whose run could not be completed because of an
/// error: a test failure with the error's text and the given duration.
pub fn run_error_result(case: TestCase, error_text: String, duration: Duration) -> (r: TestResult)
    ensures
        r == (TestResult::Failed { case, output: error_text, reason: FailureReason::TestFailed, duration }),
{
    TestResult::Failed { case, output: error_text, reason: FailureReason::TestFailed, duration }
}

} // verus!

//! The decisions of the `run` command around running the cases: settings,
//! when to stop early, and the verdict of a run.
use vstd::prelude::*;
use crate::config::TestCase;
use crate::models::TestResult;
use crate::text::str_equal;

verus! {

/// Whether the configuration's language replaces the current one: only when
/// no language was given on the command line and the configuration names a
/// language other than English.
pub fn config_language_applies(cli_language: &Option<String>, config_language: &str) -> (r: bool)
    ensures
        r == (cli_language is None && config_language@ != "en"@),
{
    cli_language.is_none() && !str_equal(config_language, "en")
}

/// Whether the run stops at the first unexpected failure: asked for on the
/// command line or in the configuration.
pub fn fast_fail_mode(cli_fast_fail: bool, config_fast_fail: bool) -> (r: bool)
    ensures
        r == (cli_fast_fail || config_fast_fail),
{
    cli_fast_fail || config_fast_fail
}

/// The number of logical CPUs, from `num_cpus::get`. It depends on the
/// machine; its documentation promises at least 1.
#[verifier::external_body]
fn logical_cpus() -> (n: usize)
    ensures
        n >= 1,
{
    num_cpus::get()
}

/// The default number of parallel jobs on a machine with `cpus` logical
/// CPUs: half of them plus one.
pub open spec fn default_jobs(cpus: usize) -> int {
    cpus / 2 + 1
}

/// The number of parallel jobs on a machine with `cpus` logical CPUs: the
/// one asked for, else `default_jobs(cpus)`.
pub fn jobs_for(jobs: Option<usize>, cpus: usize) -> (r: usize)
    ensures
        r == match jobs {
            Some(j) => j as int,
            None => default_jobs(cpus),
        },
{
    match jobs {
        Some(j) => j,
        None => cpus / 2 + 1,
    }
}

/// The number of parallel jobs on this machine (see `jobs_for`).
pub fn jobs_to_use(jobs: Option<usize>) -> (r: usize)
    ensures
        jobs matches Some(j) ==> r == j,
        jobs is None ==> exists|cpus: usize| cpus >= 1 && r == #[trigger] default_jobs(cpus),
{
    match jobs {
        Some(j) => j,
        None => {
            let cpus = logical_cpus();
            let r = jobs_for(None, cpus);
            assert(cpus >= 1 && r == default_jobs(cpus));
            r
        },
    }
}

/// Whether a finished case stops the cases still to run: in fast-fail mode,
/// when a case that may not fail on `os` failed unexpectedly.
pub fn should_stop_remaining(fast_fail: bool, case: &TestCase, result: &TestResult, os: &str) -> (r: bool)
    ensures
        r == (fast_fail && !case.allows_failure_on(os@) && result.unexpected_on(os@)),
        result is Failed && result->Failed_case == *case && !(exists|i: int|
            0 <= i < case.allow_failure@.len() && #[trigger] case.allow_failure@[i]@ == os@) ==> r == fast_fail,
        !(result is Failed) ==> !r,
{
    fast_fail && !case.is_allowed_to_fail_on(os) && result.is_unexpected_failure(os)
}

/// A case that may fail on `os` never stops the run.
pub proof fn law_allowed_failures_never_stop_the_run(fast_fail: bool, case: TestCase, result: TestResult, os: Seq<char>)
    requires
        case.allows_failure_on(os),
    ensures
        !(fast_fail && !case.allows_failure_on(os) && result.unexpected_on(os)),
{
}

/// The positions of the results that are unexpected failures on `os`.
pub open spec fn unexpected_positions(rs: Seq<TestResult>, os: Seq<char>) -> Seq<usize>
    decreases rs.len(),
{
    if rs.len() == 0 {
        Seq::empty()
    } else if rs.last().unexpected_on(os) {
        unexpected_positions(rs.drop_last(), os).push((rs.len() - 1) as usize)
    } else {
        unexpected_positions(rs.drop_last(), os)
    }
}

/// The positions of the results that are unexpected failures on `os`, in order.
pub fn unexpected_failure_indices(results: &[TestResult], os: &str) -> (r: Vec<usize>)
    ensures
        r@ == unexpected_positions(results@, os@),
{
    let mut out: Vec<usize> = Vec::new();
    let mut i: usize = 0;
    assert(results@.take(0) =~= Seq::<TestResult>::empty());
    while i < results.len()
        invariant
            i <= results@.len(),
            out@ == unexpected_positions(results@.take(i as int), os@),
        decreases results@.len() - i,
    {
        assert(results@.take(i + 1).drop_last() =~= results@.take(i as int));
        if results[i].is_unexpected_failure(os) {
            out.push(i);
        }
        i += 1;
    }
    assert(results@.take(i as int) =~= results@);
    out
}

/// Every failure whose case does not name `os` in its `allow_failure` list
/// is an unexpected failure on `os`, whatever its reason (a timeout
/// included): it is listed among the unexpected failures, so the run is
/// reported as failed, and in fast-fail mode it stops the remaining cases.
pub proof fn law_failures_not_allowed_fail_the_run(rs: Seq<TestResult>, os: Seq<char>, k: int, fast_fail: bool)
    requires
        rs.len() <= usize::MAX,
        0 <= k < rs.len(),
        rs[k] is Failed,
        !exists|i: int|
            0 <= i < rs[k]->Failed_case.allow_failure@.len() && #[trigger] rs[k]->Failed_case.allow_failure@[i]@
                == os,
    ensures
        rs[k].unexpected_on(os),
        unexpected_positions(rs, os).contains(k as usize),
        exists|i: int| 0 <= i < rs.len() && #[trigger] rs[i].unexpected_on(os),
        (fast_fail && !rs[k]->Failed_case.allows_failure_on(os) && rs[k].unexpected_on(os)) == fast_fail,
{
    law_unexpected_positions_are_exact(rs, os);
    assert(rs[k].unexpected_on(os));
    let j = choose|j: int| 0 <= j < unexpected_positions(rs, os).len() && unexpected_positions(rs, os)[j] == k as usize;
    assert(unexpected_positions(rs, os)[j] == k as usize);
}

/// Whether some result is an unexpected failure on `os`.
pub fn has_unexpected_failures(results: &[TestResult], os: &str) -> (r: bool)
    ensures
        r == exists|i: int| 0 <= i < results@.len() && #[trigger] results@[i].unexpected_on(os@),
{
    let mut i: usize = 0;
    while i < results.len()
        invariant
            i <= results@.len(),
            forall|k: int| 0 <= k < i ==> !(#[trigger] results@[k].unexpected_on(os@)),
        decreases results@.len() - i,
    {
        if results[i].is_unexpected_failure(os) {
            return true;
        }
        i += 1;
    }
    false
}

/// Position `p` holds an unexpected failure on `os`.
pub open spec fn unexpected_at(rs: Seq<TestResult>, os: Seq<char>, p: usize) -> bool {
    p < rs.len() && rs[p as int].unexpected_on(os)
}

/// The unexpected failures listed are exactly the results that are one:
/// each listed position holds one, each such result is listed, and the
/// run fails exactly when the list is not empty.
pub proof fn law_unexpected_positions_are_exact(rs: Seq<TestResult>, os: Seq<char>)
    requires
        rs.len() <= usize::MAX,
    ensures
        forall|j: int| 0 <= j < unexpected_positions(rs, os).len() ==> unexpected_at(rs, os, #[trigger] unexpected_positions(rs, os)[j]),
        forall|k: int| 0 <= k < rs.len() && #[trigger] rs[k].unexpected_on(os) ==> unexpected_positions(
            rs,
            os,
        ).contains(k as usize),
        (unexpected_positions(rs, os).len() > 0) == (exists|i: int| 0 <= i < rs.len() && #[trigger] rs[i].unexpected_on(os)),
    decreases rs.len(),
{
    if rs.len() > 0 {
        let t = rs.drop_last();
        law_unexpected_positions_are_exact(t, os);
        let u = unexpected_positions(t, os);
        assert forall|k: int| 0 <= k < rs.len() && #[trigger] rs[k].unexpected_on(os) implies unexpected_positions(
            rs,
            os,
        ).contains(k as usize) by {
            if k < t.len() {
                assert(t[k] == rs[k]);
                let j = choose|j: int| 0 <= j < u.len() && u[j] == k as usize;
                if rs.last().unexpected_on(os) {
                    assert(u.push((rs.len() - 1) as usize)[j] == k as usize);
                }
            } else {
                assert(unexpected_positions(rs, os).last() == k as usize);
            }
        }
        if exists|i: int| 0 <= i < t.len() && #[trigger] t[i].unexpected_on(os) {
            let i = choose|i: int| 0 <= i < t.len() && #[trigger] t[i].unexpected_on(os);
            assert(rs[i] == t[i]);
        }
        if rs.last().unexpected_on(os) {
            assert(rs[rs.len() - 1].unexpected_on(os));
        }
        assert forall|j: int| 0 <= j < unexpected_positions(rs, os).len() implies unexpected_at(rs, os, #[trigger] unexpected_positions(rs, os)[j]) by {
            let full = unexpected_positions(rs, os);
            if j < u.len() {
                assert(unexpected_at(t, os, u[j]));
                assert(full[j] == u[j]);
                assert(rs[u[j] as int] == t[u[j] as int]);
            } else {
                assert(rs.last().unexpected_on(os));
                assert(full[j] == (rs.len() - 1) as usize);
            }
        }
    }
}

/// The message of a run that ended with unexpected failures.
pub fn run_failed_message() -> (r: &'static str)
    ensures
        r@ == "Matrix tests failed with unexpected errors."@,
{
    "Matrix tests failed with unexpected errors."
}

} // verus!

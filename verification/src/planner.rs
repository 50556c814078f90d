//! Planning: which cases run here, in which order, and on which runner.
use vstd::prelude::*;
use crate::config::{TestCase, TestMatrix};
use crate::text::chars_of;

verus! {

broadcast use vstd::std_specs::vec::group_vec_axioms;

/// The cases of `s` that satisfy `p`, in their order.
pub open spec fn keep(s: Seq<TestCase>, p: spec_fn(TestCase) -> bool) -> Seq<TestCase>
    decreases s.len(),
{
    if s.len() == 0 {
        Seq::empty()
    } else if p(s.last()) {
        keep(s.drop_last(), p).push(s.last())
    } else {
        keep(s.drop_last(), p)
    }
}

/// `a` comes strictly before `b` in lexicographic (code point) order.
pub open spec fn name_lt(a: Seq<char>, b: Seq<char>) -> bool
    decreases a.len(),
{
    if b.len() == 0 {
        false
    } else if a.len() == 0 {
        true
    } else if a[0] != b[0] {
        a[0] < b[0]
    } else {
        name_lt(a.drop_first(), b.drop_first())
    }
}

/// Inserts `x` into `s` after every case whose name is not greater than its own.
pub open spec fn insert_by_name(s: Seq<TestCase>, x: TestCase) -> Seq<TestCase>
    decreases s.len(),
{
    if s.len() == 0 {
        seq![x]
    } else if name_lt(x.name@, s.last().name@) {
        insert_by_name(s.drop_last(), x).push(s.last())
    } else {
        s.push(x)
    }
}

/// The cases sorted by name; cases with equal names keep their order.
pub open spec fn sort_by_name(s: Seq<TestCase>) -> Seq<TestCase>
    decreases s.len(),
{
    if s.len() == 0 {
        Seq::empty()
    } else {
        insert_by_name(sort_by_name(s.drop_last()), s.last())
    }
}

/// The cases whose position `i` in `s` has `i % step == r`, in their order.
pub open spec fn every_nth(s: Seq<TestCase>, step: nat, r: nat) -> Seq<TestCase>
    decreases s.len(),
{
    if s.len() == 0 || step == 0 {
        Seq::empty()
    } else if (s.len() - 1) as nat % step == r {
        every_nth(s.drop_last(), step, r).push(s.last())
    } else {
        every_nth(s.drop_last(), step, r)
    }
}

/// The cases meant for architecture `arch`.
pub open spec fn for_arch(cases: Seq<TestCase>, arch: Seq<char>) -> Seq<TestCase> {
    keep(cases, |c: TestCase| c.runs_on_arch(arch))
}

/// The cases of `cases` that may not fail on `os`.
pub open spec fn safe_on(cases: Seq<TestCase>, os: Seq<char>) -> Seq<TestCase> {
    keep(cases, |c: TestCase| !c.allows_failure_on(os))
}

/// The cases of `cases` that may fail on `os`.
pub open spec fn flaky_on(cases: Seq<TestCase>, os: Seq<char>) -> Seq<TestCase> {
    keep(cases, |c: TestCase| c.allows_failure_on(os))
}

/// The order in which a single runner runs the matrix: the cases for `arch`
/// that may not fail on `os`, sorted by name, then those that may.
pub open spec fn run_order(cases: Seq<TestCase>, arch: Seq<char>, os: Seq<char>) -> Seq<TestCase> {
    sort_by_name(safe_on(for_arch(cases, arch), os)) + flaky_on(for_arch(cases, arch), os)
}

/// Why a matrix could not be planned.
#[derive(Debug, Clone, Copy, PartialEq, Eq, Structural)]
pub enum PlanError {
    /// The runner index is not below the number of runners.
    RunnerIndexOutOfRange,
    /// Only one of the number of runners and the runner index was given.
    IncompleteRunnerSplit,
}

impl PlanError {
    /// The message that reports this error.
    pub fn message(&self) -> (r: &'static str)
        ensures
            r@ == match self {
                PlanError::RunnerIndexOutOfRange => "Runner index must be less than total runners."@,
                PlanError::IncompleteRunnerSplit => "Both --total-runners and --runner-index must be provided."@,
            },
    {
        match self {
            PlanError::RunnerIndexOutOfRange => "Runner index must be less than total runners.",
            PlanError::IncompleteRunnerSplit => "Both --total-runners and --runner-index must be provided.",
        }
    }
}

/// The complete execution plan of a test matrix on this machine.
#[derive(Debug)]
pub struct ExecutionPlan {
    /// The cases this runner runs, in order.
    pub cases_to_run: Vec<TestCase>,
    /// How many cases were left out because they are not meant for this architecture.
    pub filtered_arch_count: usize,
    /// How many of the remaining cases may fail on this operating system.
    pub flaky_cases_count: usize,
    /// Whether the matrix is split across several runners.
    pub is_distributed: bool,
}

/// Whether `a` comes strictly before `b` in lexicographic (code point) order.
pub fn name_less(a: &[char], b: &[char]) -> (r: bool)
    ensures
        r == name_lt(a@, b@),
{
    let mut i: usize = 0;
    assert(a@.skip(0) =~= a@ && b@.skip(0) =~= b@);
    while i < a.len() && i < b.len()
        invariant
            i <= a@.len(),
            i <= b@.len(),
            name_lt(a@, b@) == name_lt(a@.skip(i as int), b@.skip(i as int)),
        decreases a@.len() - i,
    {
        assert(a@.skip(i as int).drop_first() =~= a@.skip(i + 1));
        assert(b@.skip(i as int).drop_first() =~= b@.skip(i + 1));
        if a[i] != b[i] {
            return a[i] < b[i];
        }
        i += 1;
    }
    i < b.len()
}

proof fn lemma_keep_step(s: Seq<TestCase>, i: int, p: spec_fn(TestCase) -> bool)
    requires
        0 <= i < s.len(),
    ensures
        keep(s.take(i + 1), p) == if p(s[i]) {
            keep(s.take(i), p).push(s[i])
        } else {
            keep(s.take(i), p)
        },
{
    assert(s.take(i + 1).drop_last() =~= s.take(i));
}

proof fn lemma_keep_len(s: Seq<TestCase>, p: spec_fn(TestCase) -> bool)
    ensures
        keep(s, p).len() <= s.len(),
    decreases s.len(),
{
    if s.len() > 0 {
        lemma_keep_len(s.drop_last(), p);
    }
}

/// Inserting at the first position from the end whose predecessor is not
/// greater than `x` is what `insert_by_name` does.
proof fn lemma_insert_at(s: Seq<TestCase>, x: TestCase, p: int)
    requires
        0 <= p <= s.len(),
        forall|j: int| p <= j < s.len() ==> name_lt(x.name@, #[trigger] s[j].name@),
        p == 0 || !name_lt(x.name@, s[p - 1].name@),
    ensures
        insert_by_name(s, x) == s.take(p).push(x) + s.skip(p),
    decreases s.len(),
{
    if s.len() == 0 {
        assert(s.take(p).push(x) + s.skip(p) =~= seq![x]);
    } else if p == s.len() {
        assert(s.take(p).push(x) + s.skip(p) =~= s.push(x));
    } else {
        lemma_insert_at(s.drop_last(), x, p);
        assert(s.drop_last().take(p).push(x) + s.drop_last().skip(p) + seq![s.last()]
            =~= s.take(p).push(x) + s.skip(p));
    }
}

/// Sorts cases by name, keeping the order of cases with equal names.
pub fn sort_cases_by_name(v: Vec<TestCase>) -> (r: Vec<TestCase>)
    ensures
        r@ == sort_by_name(v@),
{
    let ghost all = v@;
    assert(all.len() == v.len());
    let mut sorted: Vec<TestCase> = Vec::new();
    let mut names: Vec<Vec<char>> = Vec::new();
    let mut k: usize = 0;
    assert(all.take(0) =~= Seq::<TestCase>::empty());
    for c in it: v.into_iter()
        invariant
            it.seq() == all,
            all.len() <= usize::MAX,
            k == it.index(),
            k <= all.len(),
            sorted@ == sort_by_name(all.take(k as int)),
            names@.len() == sorted@.len(),
            forall|j: int| 0 <= j < names@.len() ==> (#[trigger] names@[j])@ == sorted@[j].name@,
    {
        let cn = chars_of(c.name.as_str());
        let mut p = sorted.len();
        while p > 0 && name_less(cn.as_slice(), names[p - 1].as_slice())
            invariant
                p <= sorted@.len(),
                names@.len() == sorted@.len(),
                forall|j: int| 0 <= j < names@.len() ==> (#[trigger] names@[j])@ == sorted@[j].name@,
                cn@ == c.name@,
                forall|j: int| p <= j < sorted@.len() ==> name_lt(c.name@, #[trigger] sorted@[j].name@),
            decreases p,
        {
            p -= 1;
        }
        proof {
            lemma_insert_at(sorted@, c, p as int);
            assert(all.take(k + 1).drop_last() =~= all.take(k as int));
            assert(all[k as int] == c);
        }
        sorted.insert(p, c);
        names.insert(p, cn);
        k += 1;
        proof {
            assert forall|j: int| 0 <= j < names@.len() implies (#[trigger] names@[j])@ == sorted@[j].name@ by {
                if j < p {
                } else if j > p {
                }
            }
        }
    }
    assert(all.take(k as int) =~= all);
    sorted
}

/// The cases at positions `i` with `i % step == r`, in their order.
pub fn take_every_nth(v: Vec<TestCase>, step: usize, r: usize) -> (out: Vec<TestCase>)
    requires
        step > 0,
    ensures
        out@ == every_nth(v@, step as nat, r as nat),
{
    let ghost all = v@;
    assert(all.len() == v.len());
    let mut out: Vec<TestCase> = Vec::new();
    let mut k: usize = 0;
    assert(all.take(0) =~= Seq::<TestCase>::empty());
    for c in it: v.into_iter()
        invariant
            it.seq() == all,
            all.len() <= usize::MAX,
            k == it.index(),
            k <= all.len(),
            step > 0,
            out@ == every_nth(all.take(k as int), step as nat, r as nat),
    {
        assert(k < all.len());
        proof {
            assert(all.take(k + 1).drop_last() =~= all.take(k as int));
            assert(all[k as int] == c);
        }
        if k % step == r {
            out.push(c);
        }
        k += 1;
    }
    assert(all.take(k as int) =~= all);
    out
}

/// Plans the execution of a matrix on a machine of architecture `arch` that
/// runs operating system `os`.
///
/// Cases not meant for `arch` are left out and counted. The others are
/// ordered: those that may not fail on `os` first, sorted by name, then those
/// that may, in their order. Given both a number of runners and an index,
/// this runner takes the cases at the positions whose remainder by the number
/// of runners is its index.
pub fn plan_execution(
    test_matrix: TestMatrix,
    total_runners: Option<usize>,
    runner_index: Option<usize>,
    arch: &str,
    os: &str,
) -> (r: Result<ExecutionPlan, PlanError>)
    ensures
        match (total_runners, runner_index) {
            (Some(total), Some(index)) => if index >= total {
                r == Err::<ExecutionPlan, PlanError>(PlanError::RunnerIndexOutOfRange)
            } else {
                r is Ok && r->Ok_0.is_distributed && r->Ok_0.cases_to_run@ == every_nth(
                    run_order(test_matrix.cases@, arch@, os@),
                    total as nat,
                    index as nat,
                )
            },
            (None, None) => r is Ok && !r->Ok_0.is_distributed && r->Ok_0.cases_to_run@
                == run_order(test_matrix.cases@, arch@, os@),
            _ => r == Err::<ExecutionPlan, PlanError>(PlanError::IncompleteRunnerSplit),
        },
        r is Ok ==> r->Ok_0.filtered_arch_count == test_matrix.cases@.len() - for_arch(
            test_matrix.cases@,
            arch@,
        ).len(),
        r is Ok ==> r->Ok_0.flaky_cases_count == flaky_on(for_arch(test_matrix.cases@, arch@), os@).len(),
{
    let distribution: Option<(usize, usize)> = match (total_runners, runner_index) {
        (Some(total), Some(index)) => {
            if index >= total {
                return Err(PlanError::RunnerIndexOutOfRange);
            }
            Some((total, index))
        },
        (None, None) => None,
        _ => {
            return Err(PlanError::IncompleteRunnerSplit);
        },
    };
    let ghost cases = test_matrix.cases@;
    assert(cases.len() == test_matrix.cases.len());
    let ghost pa = |c: TestCase| c.runs_on_arch(arch@);
    let ghost ps = |c: TestCase| !c.allows_failure_on(os@);
    let ghost pf = |c: TestCase| c.allows_failure_on(os@);
    let mut safe: Vec<TestCase> = Vec::new();
    let mut flaky: Vec<TestCase> = Vec::new();
    let mut arch_count: usize = 0;
    let mut k: usize = 0;
    assert(cases.take(0) =~= Seq::<TestCase>::empty());
    for c in it: test_matrix.cases.into_iter()
        invariant
            it.seq() == cases,
            cases.len() <= usize::MAX,
            k == it.index(),
            k <= cases.len(),
            arch_count == keep(cases.take(k as int), pa).len(),
            safe@ == keep(keep(cases.take(k as int), pa), ps),
            flaky@ == keep(keep(cases.take(k as int), pa), pf),
            pa == (|c: TestCase| c.runs_on_arch(arch@)),
            ps == (|c: TestCase| !c.allows_failure_on(os@)),
            pf == (|c: TestCase| c.allows_failure_on(os@)),
    {
        proof {
            lemma_keep_step(cases, k as int, pa);
            assert(cases[k as int] == c);
            lemma_keep_len(cases.take(k as int), pa);
            let a0 = keep(cases.take(k as int), pa);
            assert(a0.push(c).drop_last() =~= a0);
        }
        assert(k < cases.len());
        if c.is_for_arch(arch) {
            arch_count += 1;
            if c.is_allowed_to_fail_on(os) {
                flaky.push(c);
            } else {
                safe.push(c);
            }
        }
        k += 1;
    }
    assert(cases.take(k as int) =~= cases);
    proof {
        lemma_keep_len(cases, pa);
    }
    let filtered_arch_count = k - arch_count;
    let flaky_cases_count = flaky.len();
    let mut combined = sort_cases_by_name(safe);
    let mut flaky_rest = flaky;
    combined.append(&mut flaky_rest);
    match distribution {
        Some((total, index)) => {
            let cases_to_run = take_every_nth(combined, total, index);
            Ok(ExecutionPlan { cases_to_run, filtered_arch_count, flaky_cases_count, is_distributed: true })
        },
        None => {
            Ok(ExecutionPlan { cases_to_run: combined, filtered_arch_count, flaky_cases_count, is_distributed: false })
        },
    }
}

/// Runner `r` of `step` runners takes the cases at positions `r`, `r + step`,
/// `r + 2 * step`, ... and no others.
pub proof fn lemma_every_nth_positions(s: Seq<TestCase>, step: nat, r: nat)
    requires
        step > 0,
        r < step,
    ensures
        forall|j: int|
            0 <= j < every_nth(s, step, r).len() ==> #[trigger] every_nth(s, step, r)[j] == s[r + j * step],
        r < s.len() ==> r + (every_nth(s, step, r).len() - 1) * step < s.len() <= r + every_nth(
            s,
            step,
            r,
        ).len() * step,
        r >= s.len() ==> every_nth(s, step, r).len() == 0,
    decreases s.len(),
{
    if s.len() > 0 {
        let t = s.drop_last();
        lemma_every_nth_positions(t, step, r);
        let e = every_nth(t, step, r);
        let l = e.len() as int;
        let m = (s.len() - 1) as int;
        let si = step as int;
        let ri = r as int;
        assert forall|j: int| 0 <= j < e.len() implies #[trigger] e[j] == s[r + j * step] by {
            assert(e[j] == t[r + j * step]);
            assert(0 <= j * step) by (nonlinear_arith)
                requires
                    0 <= j,
                    0 <= step,
            ;
            if r < t.len() {
                assert(j * si <= (l - 1) * si) by (nonlinear_arith)
                    requires
                        j <= l - 1,
                        0 <= si,
                ;
            }
        }
        if (s.len() - 1) as nat % step == r {
            vstd::arithmetic::div_mod::lemma_fundamental_div_mod(m, si);
            let q = m / si;
            assert(m % si == ri);
            assert(m == q * si + ri) by (nonlinear_arith)
                requires
                    m == si * q + m % si,
                    m % si == ri,
            ;
            if ri < m {
                assert(q == l) by (nonlinear_arith)
                    requires
                        (l - 1) * si < q * si,
                        q * si <= l * si,
                        si > 0,
                ;
            } else {
                vstd::arithmetic::div_mod::lemma_mod_bound(m, si);
                assert(m % si <= m) by {
                    vstd::arithmetic::div_mod::lemma_mod_decreases(m as nat, step);
                }
                assert(ri == m);
                assert(l == 0);
                assert(q * si == 0);
                assert(q == 0) by (nonlinear_arith)
                    requires
                        q * si == 0,
                        si > 0,
                ;
            }
            assert(m == ri + l * si);
            assert forall|j: int| 0 <= j < e.len() + 1 implies #[trigger] e.push(s.last())[j] == s[r + j * step] by {
                if j < e.len() {
                    assert(e.push(s.last())[j] == e[j]);
                }
            }
            assert(ri + (l + 1) * si == m + si) by (nonlinear_arith)
                requires
                    m == ri + l * si,
            ;
        } else {
            if ri < m {
                vstd::arithmetic::div_mod::lemma_mod_multiples_vanish(l, ri, si);
                vstd::arithmetic::div_mod::lemma_small_mod(r, step);
                assert((si * l + ri) % si == ri);
                assert(si * l == l * si) by (nonlinear_arith);
                assert(m != ri + l * si);
            } else if ri == m {
                vstd::arithmetic::div_mod::lemma_small_mod(r, step);
                assert(false);
            }
        }
    }
}

/// The position of runner `r`'s `j`-th case among `step` runners.
pub proof fn lemma_runner_position(step: nat, r: nat, j: nat)
    requires
        step > 0,
        r < step,
    ensures
        ((r + j * step) as int) % (step as int) == r,
        ((r + j * step) as int) / (step as int) == j,
{
    vstd::arithmetic::div_mod::lemma_fundamental_div_mod_converse(
        (r + j * step) as int,
        step as int,
        j as int,
        r as int,
    );
}

/// Splitting a run across `total` runners runs every case of the single-runner
/// order exactly once: the case at position `k` is run by runner `k % total`,
/// as its `(k / total)`-th case, and the `j`-th case of runner `r` is the case
/// at position `r + j * total`, which no other runner and position share.
pub proof fn law_split_runs_each_case_once(
    cases: Seq<TestCase>,
    arch: Seq<char>,
    os: Seq<char>,
    total: nat,
    k: int,
)
    requires
        total > 0,
        0 <= k < run_order(cases, arch, os).len(),
    ensures
        ({
            let order = run_order(cases, arch, os);
            let share = every_nth(order, total, (k % (total as int)) as nat);
            &&& k / (total as int) < share.len()
            &&& share[k / (total as int)] == order[k]
        }),
        forall|r: nat, j: int|
            r < total && 0 <= j < every_nth(run_order(cases, arch, os), total, r).len()
                ==> #[trigger] runner_slot(run_order(cases, arch, os), total, r, j),
{
    let order = run_order(cases, arch, os);
    let ti = total as int;
    vstd::arithmetic::div_mod::lemma_fundamental_div_mod(k, ti);
    vstd::arithmetic::div_mod::lemma_mod_bound(k, ti);
    let r = (k % ti) as nat;
    let q = k / ti;
    assert(q >= 0) by {
        vstd::arithmetic::div_mod::lemma_div_pos_is_pos(k, ti);
    }
    lemma_every_nth_positions(order, total, r);
    let share = every_nth(order, total, r);
    assert(k == r + q * ti) by (nonlinear_arith)
        requires
            k == ti * q + r,
    ;
    assert(q < share.len()) by (nonlinear_arith)
        requires
            k == r + q * ti,
            k < order.len(),
            order.len() <= r + share.len() * ti,
            ti > 0,
    ;
    assert(share[q] == order[r + q * total]);
    lemma_runner_shares(order, total);
}

/// Runner `r`'s `j`-th case is the case at position `r + j * step`, a
/// position whose remainder by `step` is `r` and whose quotient is `j`.
pub open spec fn runner_slot(order: Seq<TestCase>, step: nat, r: nat, j: int) -> bool {
    &&& r + j * step < order.len()
    &&& ((r + j * step) as int) % (step as int) == r
    &&& ((r + j * step) as int) / (step as int) == j
    &&& every_nth(order, step, r)[j] == order[r + j * step]
}

/// Every case that runner `r` of `step` runners takes sits at its own slot.
pub proof fn lemma_runner_shares(order: Seq<TestCase>, step: nat)
    requires
        step > 0,
    ensures
        forall|r: nat, j: int|
            r < step && 0 <= j < every_nth(order, step, r).len() ==> #[trigger] runner_slot(
                order,
                step,
                r,
                j,
            ),
{
    let ti = step as int;
    assert forall|r: nat, j: int|
        r < step && 0 <= j < every_nth(order, step, r).len() implies #[trigger] runner_slot(
            order,
            step,
            r,
            j,
        ) by {
        lemma_every_nth_positions(order, step, r);
        lemma_runner_position(step, r, j as nat);
        let l2 = every_nth(order, step, r).len() as int;
        assert(j * ti <= (l2 - 1) * ti) by (nonlinear_arith)
            requires
                j <= l2 - 1,
                0 <= ti,
        ;
    }
}

/// The cases of `s` are in non-decreasing order of name.
pub open spec fn names_sorted(s: Seq<TestCase>) -> bool {
    forall|i: int, j: int| 0 <= i < j < s.len() ==> !name_lt(#[trigger] s[j].name@, #[trigger] s[i].name@)
}

/// No name comes strictly before another that comes strictly before it.
pub proof fn lemma_name_lt_asymmetric(a: Seq<char>, b: Seq<char>)
    ensures
        name_lt(a, b) ==> !name_lt(b, a),
    decreases a.len(),
{
    if a.len() > 0 && b.len() > 0 && a[0] == b[0] {
        lemma_name_lt_asymmetric(a.drop_first(), b.drop_first());
    }
}

/// "Not after" is transitive: if `a` is not after `b` and `b` is not after
/// `c`, then `a` is not after `c`.
pub proof fn lemma_name_le_transitive(a: Seq<char>, b: Seq<char>, c: Seq<char>)
    ensures
        !name_lt(b, a) && !name_lt(c, b) ==> !name_lt(c, a),
    decreases a.len(),
{
    if a.len() > 0 && b.len() > 0 && c.len() > 0 {
        if a[0] == b[0] && b[0] == c[0] {
            lemma_name_le_transitive(a.drop_first(), b.drop_first(), c.drop_first());
        }
    }
}

/// Inserting by name into a sorted sequence keeps it sorted and adds exactly
/// the inserted case.
pub proof fn lemma_insert_by_name(s: Seq<TestCase>, x: TestCase)
    requires
        names_sorted(s),
    ensures
        names_sorted(insert_by_name(s, x)),
        insert_by_name(s, x).to_multiset() =~= s.to_multiset().insert(x),
    decreases s.len(),
{
    broadcast use vstd::seq_lib::group_to_multiset_ensures;
    broadcast use vstd::multiset::group_multiset_axioms;
    if s.len() == 0 {
        assert(seq![x] =~= Seq::<TestCase>::empty().push(x));
    } else if name_lt(x.name@, s.last().name@) {
        let t = s.drop_last();
        let last = s.last();
        assert(names_sorted(t));
        lemma_insert_by_name(t, x);
        let ins = insert_by_name(t, x);
        assert(t.push(last) =~= s);
        assert forall|i: int| 0 <= i < ins.len() implies !name_lt(last.name@, #[trigger] ins[i].name@) by {
            assert(ins.to_multiset().count(ins[i]) > 0);
            if ins[i] == x {
                lemma_name_lt_asymmetric(x.name@, last.name@);
            } else {
                assert(t.to_multiset().count(ins[i]) > 0);
                assert(t.contains(ins[i]));
                let k = choose|k: int| 0 <= k < t.len() && t[k] == ins[i];
                assert(s[k] == t[k]);
                assert(s[s.len() - 1] == last);
            }
        }
        let r = ins.push(last);
        assert forall|i: int, j: int| 0 <= i < j < r.len() implies !name_lt(#[trigger] r[j].name@, #[trigger] r[i].name@) by {
            if j < ins.len() {
                assert(r[i] == ins[i] && r[j] == ins[j]);
            } else {
                assert(r[j] == last && r[i] == ins[i]);
            }
        }
    } else {
        let last = s.last();
        assert forall|i: int, j: int| 0 <= i < j < s.push(x).len() implies !name_lt(
            #[trigger] s.push(x)[j].name@,
            #[trigger] s.push(x)[i].name@,
        ) by {
            if j < s.len() {
                assert(s.push(x)[i] == s[i] && s.push(x)[j] == s[j]);
            } else {
                assert(s.push(x)[j] == x && s.push(x)[i] == s[i]);
                if i < s.len() - 1 {
                    assert(!name_lt(s[s.len() - 1].name@, s[i].name@));
                }
                lemma_name_le_transitive(s[i].name@, last.name@, x.name@);
            }
        }
    }
}

/// Sorting by name yields a sorted rearrangement of the same cases.
pub proof fn lemma_sort_by_name(s: Seq<TestCase>)
    ensures
        names_sorted(sort_by_name(s)),
        sort_by_name(s).to_multiset() =~= s.to_multiset(),
    decreases s.len(),
{
    broadcast use vstd::seq_lib::group_to_multiset_ensures;
    if s.len() > 0 {
        lemma_sort_by_name(s.drop_last());
        lemma_insert_by_name(sort_by_name(s.drop_last()), s.last());
        assert(s.drop_last().push(s.last()) =~= s);
    }
}

/// Keeping the cases that satisfy `p`, and those that satisfy its negation
/// `q`, splits the cases between the two.
pub proof fn lemma_keep_partition(s: Seq<TestCase>, p: spec_fn(TestCase) -> bool, q: spec_fn(TestCase) -> bool)
    requires
        forall|c: TestCase| #[trigger] q(c) == !p(c),
    ensures
        keep(s, p).to_multiset().add(keep(s, q).to_multiset()) =~= s.to_multiset(),
        keep(s, p).len() + keep(s, q).len() == s.len(),
        forall|i: int| 0 <= i < keep(s, p).len() ==> p(#[trigger] keep(s, p)[i]),
    decreases s.len(),
{
    broadcast use vstd::seq_lib::group_to_multiset_ensures;
    broadcast use vstd::multiset::group_multiset_axioms;
    if s.len() > 0 {
        lemma_keep_partition(s.drop_last(), p, q);
        assert(s.drop_last().push(s.last()) =~= s);
        let kp = keep(s.drop_last(), p);
        assert forall|i: int| 0 <= i < keep(s, p).len() implies p(#[trigger] keep(s, p)[i]) by {
            if p(s.last()) && i < kp.len() {
                assert(kp.push(s.last())[i] == kp[i]);
            }
        }
    }
}

/// The order of a single runner: the safe cases for the architecture come
/// first, sorted by name, then the cases that may fail on `os`; together they
/// are exactly the cases meant for the architecture, and the left-out cases
/// are exactly the others.
pub proof fn law_single_runner_order(cases: Seq<TestCase>, arch: Seq<char>, os: Seq<char>)
    ensures
        ({
            let safe = sort_by_name(safe_on(for_arch(cases, arch), os));
            let order = run_order(cases, arch, os);
            &&& names_sorted(safe)
            &&& forall|i: int| 0 <= i < safe.len() ==> !(#[trigger] order[i]).allows_failure_on(os)
            &&& forall|i: int| safe.len() <= i < order.len() ==> (#[trigger] order[i]).allows_failure_on(os)
            &&& forall|i: int| 0 <= i < order.len() ==> (#[trigger] order[i]).runs_on_arch(arch)
            &&& order.to_multiset() =~= for_arch(cases, arch).to_multiset()
            &&& for_arch(cases, arch).len() + keep(cases, |c: TestCase| !c.runs_on_arch(arch)).len()
                == cases.len()
        }),
{
    broadcast use vstd::seq_lib::group_to_multiset_ensures;
    broadcast use vstd::multiset::group_multiset_axioms;
    let pa = |c: TestCase| c.runs_on_arch(arch);
    let na = |c: TestCase| !c.runs_on_arch(arch);
    let ps = |c: TestCase| !c.allows_failure_on(os);
    let pf = |c: TestCase| c.allows_failure_on(os);
    let arch_cases = for_arch(cases, arch);
    lemma_keep_partition(cases, pa, na);
    lemma_keep_partition(arch_cases, ps, pf);
    lemma_keep_partition(arch_cases, pf, ps);
    let unsorted = safe_on(arch_cases, os);
    let safe = sort_by_name(unsorted);
    let flaky = flaky_on(arch_cases, os);
    lemma_sort_by_name(unsorted);
    let order = run_order(cases, arch, os);
    assert(order == safe + flaky);
    vstd::seq_lib::lemma_multiset_commutative(safe, flaky);
    assert forall|i: int| 0 <= i < safe.len() implies !(#[trigger] order[i]).allows_failure_on(os) by {
        assert(safe.to_multiset().count(safe[i]) > 0);
        assert(unsorted.to_multiset().count(safe[i]) > 0);
        assert(unsorted.contains(safe[i]));
        let k = choose|k: int| 0 <= k < unsorted.len() && unsorted[k] == safe[i];
        assert(ps(unsorted[k]));
    }
    assert forall|i: int| safe.len() <= i < order.len() implies (#[trigger] order[i]).allows_failure_on(os) by {
        assert(order[i] == flaky[i - safe.len()]);
        assert(pf(flaky[i - safe.len()]));
    }
    assert forall|i: int| 0 <= i < order.len() implies (#[trigger] order[i]).runs_on_arch(arch) by {
        assert(order.to_multiset().count(order[i]) > 0);
        assert(arch_cases.to_multiset().count(order[i]) > 0);
        assert(arch_cases.contains(order[i]));
        let k = choose|k: int| 0 <= k < arch_cases.len() && arch_cases[k] == order[i];
        assert(pa(arch_cases[k]));
    }
}


/// The case names architecture `arch` as a whole, or names none.
pub open spec fn names_arch(c: TestCase, arch: Seq<char>) -> bool {
    c.arch@.len() == 0 || exists|i: int| 0 <= i < c.arch@.len() && #[trigger] c.arch@[i]@ == arch
}

/// Planning on architecture `arch` keeps, in their order, exactly the cases
/// whose `arch` list is empty or holds a name equal to `arch`: every case of
/// the run order is such a case, and the number of cases left out is the
/// number of cases whose non-empty list holds no name equal to `arch`.
pub proof fn law_plan_keeps_cases_naming_the_host_arch(cases: Seq<TestCase>, arch: Seq<char>, os: Seq<char>)
    ensures
        for_arch(cases, arch) == keep(cases, |c: TestCase| names_arch(c, arch)),
        forall|k: int| 0 <= k < run_order(cases, arch, os).len() ==> names_arch(
            #[trigger] run_order(cases, arch, os)[k],
            arch,
        ),
        cases.len() - for_arch(cases, arch).len() == keep(
            cases,
            |c: TestCase| c.arch@.len() > 0 && forall|i: int| 0 <= i < c.arch@.len() ==> #[trigger] c.arch@[i]@ != arch,
        ).len(),
{
    let pa = |c: TestCase| c.runs_on_arch(arch);
    let pn = |c: TestCase| names_arch(c, arch);
    let na = |c: TestCase| c.arch@.len() > 0 && forall|i: int| 0 <= i < c.arch@.len() ==> #[trigger] c.arch@[i]@ != arch;
    assert(pa =~= pn);
    assert forall|c: TestCase| #[trigger] na(c) == !pn(c) by {
        if pn(c) && c.arch@.len() > 0 {
            let i = choose|i: int| 0 <= i < c.arch@.len() && #[trigger] c.arch@[i]@ == arch;
            assert(!na(c));
        }
    }
    lemma_keep_partition(cases, pn, na);
    law_single_runner_order(cases, arch, os);
    let order = run_order(cases, arch, os);
    assert forall|k: int| 0 <= k < order.len() implies names_arch(#[trigger] order[k], arch) by {
        assert(order[k].runs_on_arch(arch));
    }
}

} // verus!

//! Reports of a run: the HTML report, and the rules that the console summary
//! and the failure details follow.
use vstd::prelude::*;
use crate::command::{build_error_report, format_build_error_output};
use crate::i18n::{translate, translated, Translations};
use crate::models::{CargoMessage, FailureReason, TestResult};
use crate::text::{chars_of, string_from};

verus! {

/// Style sheet of the HTML report.
pub const HTML_STYLE: &'static str = "body{font-family:sans-serif;margin:2em;color:#222}\
.summary-container{display:flex;gap:1em;margin:1em 0}\
.summary-item{border:1px solid #ccc;border-radius:4px;padding:.5em 1em;text-align:center}\
.summary-item .count{display:block;font-size:1.6em;font-weight:bold}\
.passed-text{color:#2e7d32}.failed-text{color:#c62828}.skipped-text{color:#757575}\
table{border-collapse:collapse;width:100%}th,td{border:1px solid #ddd;padding:.4em;text-align:left}\
.status-cell{font-weight:bold}.status-Passed{color:#2e7d32}.status-Failed{color:#c62828}\
.status-Timeout{color:#ef6c00}.status-Allowed-Failure{color:#f9a825}.status-Skipped{color:#757575}\
.output-toggle{cursor:pointer;color:#1565c0;font-size:.9em}\
.output-content{white-space:pre-wrap;background:#f5f5f5;padding:.5em;margin:0}";

/// Script of the HTML report: shows or hides the output row of a case.
pub const HTML_SCRIPT: &'static str = "function toggleOutput(id){var e=document.getElementById(id);\
if(e){e.style.display=(e.style.display==='none')?'table-row':'none';}}";

/// The HTML entity, or the character itself, that stands for `c` in HTML text.
pub open spec fn escape_char(c: char) -> Seq<char> {
    if c == '&' {
        "&amp;"@
    } else if c == '<' {
        "&lt;"@
    } else if c == '>' {
        "&gt;"@
    } else if c == '"' {
        "&quot;"@
    } else if c == '\'' {
        "&#39;"@
    } else {
        seq![c]
    }
}

/// `s` with the HTML special characters replaced by their entities.
pub open spec fn escaped(s: Seq<char>) -> Seq<char>
    decreases s.len(),
{
    if s.len() == 0 {
        Seq::empty()
    } else {
        escaped(s.drop_last()) + escape_char(s.last())
    }
}

/// Escapes the HTML special characters `&`, `<`, `>`, `"` and `'` of `input`.
pub fn escape_html(input: &str) -> (r: String)
    ensures
        r@ == escaped(input@),
{
    let cs = chars_of(input);
    let mut out = String::new();
    let mut i: usize = 0;
    assert(cs@.take(0) =~= Seq::<char>::empty());
    while i < cs.len()
        invariant
            i <= cs@.len(),
            out@ == escaped(cs@.take(i as int)),
        decreases cs@.len() - i,
    {
        let c = cs[i];
        assert(cs@.take(i + 1).drop_last() =~= cs@.take(i as int));
        if c == '&' {
            out.append("&amp;");
        } else if c == '<' {
            out.append("&lt;");
        } else if c == '>' {
            out.append("&gt;");
        } else if c == '"' {
            out.append("&quot;");
        } else if c == '\'' {
            out.append("&#39;");
        } else {
            let one = string_from(&[c]);
            assert(one@ =~= seq![c]);
            out.append(one.as_str());
        }
        i += 1;
    }
    assert(cs@.take(i as int) =~= cs@);
    out
}

/// A character that HTML reads as markup or as the end of a quoted attribute.
pub open spec fn is_markup(c: char) -> bool {
    c == '<' || c == '>' || c == '"' || c == '\''
}

/// Escaping leaves no `<`, `>`, `"` or `'` in the text.
pub proof fn law_escape_leaves_no_markup(s: Seq<char>)
    ensures
        forall|i: int| 0 <= i < escaped(s).len() ==> !is_markup(#[trigger] escaped(s)[i]),
    decreases s.len(),
{
    reveal_strlit("&amp;");
    reveal_strlit("&lt;");
    reveal_strlit("&gt;");
    reveal_strlit("&quot;");
    reveal_strlit("&#39;");
    if s.len() > 0 {
        law_escape_leaves_no_markup(s.drop_last());
        let a = escaped(s.drop_last());
        let b = escape_char(s.last());
        assert(escaped(s) == a + b);
        assert forall|j: int| 0 <= j < b.len() implies !is_markup(#[trigger] b[j]) by {
            if s.last() == '&' {
                assert(b =~= seq!['&', 'a', 'm', 'p', ';']);
            } else if s.last() == '<' {
                assert(b =~= seq!['&', 'l', 't', ';']);
            } else if s.last() == '>' {
                assert(b =~= seq!['&', 'g', 't', ';']);
            } else if s.last() == '"' {
                assert(b =~= seq!['&', 'q', 'u', 'o', 't', ';']);
            } else if s.last() == '\'' {
                assert(b =~= seq!['&', '#', '3', '9', ';']);
            }
        }
        assert forall|i: int| 0 <= i < escaped(s).len() implies !is_markup(#[trigger] escaped(s)[i]) by {
            if i < a.len() {
                assert(escaped(s)[i] == a[i]);
            } else {
                assert(escaped(s)[i] == b[i - a.len()]);
            }
        }
    }
}

/// `s` begins with `p`.
pub open spec fn begins_with(s: Seq<char>, p: Seq<char>) -> bool {
    p.len() <= s.len() && s.take(p.len() as int) == p
}

/// The entity of `&`.
pub open spec fn entity_amp() -> Seq<char> {
    seq!['&', 'a', 'm', 'p', ';']
}

/// The entity of `<`.
pub open spec fn entity_lt() -> Seq<char> {
    seq!['&', 'l', 't', ';']
}

/// The entity of `>`.
pub open spec fn entity_gt() -> Seq<char> {
    seq!['&', 'g', 't', ';']
}

/// The entity of `"`.
pub open spec fn entity_quot() -> Seq<char> {
    seq!['&', 'q', 'u', 'o', 't', ';']
}

/// The entity of `'`.
pub open spec fn entity_apos() -> Seq<char> {
    seq!['&', '#', '3', '9', ';']
}

/// `s` begins with one of the five entities.
pub open spec fn begins_with_entity(s: Seq<char>) -> bool {
    begins_with(s, entity_amp()) || begins_with(s, entity_lt()) || begins_with(s, entity_gt())
        || begins_with(s, entity_quot()) || begins_with(s, entity_apos())
}

/// `s` with the five entities decoded in one pass from the left.
pub open spec fn unescaped(s: Seq<char>) -> Seq<char>
    decreases s.len(),
{
    if s.len() == 0 {
        Seq::empty()
    } else if begins_with(s, entity_amp()) {
        seq!['&'] + unescaped(s.skip(5))
    } else if begins_with(s, entity_lt()) {
        seq!['<'] + unescaped(s.skip(4))
    } else if begins_with(s, entity_gt()) {
        seq!['>'] + unescaped(s.skip(4))
    } else if begins_with(s, entity_quot()) {
        seq!['"'] + unescaped(s.skip(6))
    } else if begins_with(s, entity_apos()) {
        seq!['\''] + unescaped(s.skip(5))
    } else {
        seq![s[0]] + unescaped(s.drop_first())
    }
}

proof fn lemma_escape_char_entities(c: char)
    ensures
        c == '&' ==> escape_char(c) == entity_amp(),
        c == '<' ==> escape_char(c) == entity_lt(),
        c == '>' ==> escape_char(c) == entity_gt(),
        c == '"' ==> escape_char(c) == entity_quot(),
        c == '\'' ==> escape_char(c) == entity_apos(),
{
    reveal_strlit("&amp;");
    reveal_strlit("&lt;");
    reveal_strlit("&gt;");
    reveal_strlit("&quot;");
    reveal_strlit("&#39;");
    assert("&amp;"@ =~= entity_amp());
    assert("&lt;"@ =~= entity_lt());
    assert("&gt;"@ =~= entity_gt());
    assert("&quot;"@ =~= entity_quot());
    assert("&#39;"@ =~= entity_apos());
}

proof fn lemma_escaped_front(s: Seq<char>)
    requires
        s.len() > 0,
    ensures
        escaped(s) == escape_char(s[0]) + escaped(s.drop_first()),
    decreases s.len(),
{
    if s.len() == 1 {
        assert(s.drop_last().len() == 0);
        assert(s.drop_first().len() == 0);
        assert(escaped(s.drop_last()) == Seq::<char>::empty());
        assert(escaped(s.drop_first()) == Seq::<char>::empty());
        assert(escaped(s) == escaped(s.drop_last()) + escape_char(s.last()));
        assert(s.last() == s[0]);
        assert(escaped(s) =~= escape_char(s[0]) + escaped(s.drop_first()));
    } else {
        let l = s.drop_last();
        let f = s.drop_first();
        lemma_escaped_front(l);
        assert(l.drop_first() =~= f.drop_last());
        assert(f.last() == s.last());
        assert(l[0] == s[0]);
        assert(escaped(s) == escaped(l) + escape_char(s.last()));
        assert(escaped(f) == escaped(f.drop_last()) + escape_char(f.last()));
        assert(escaped(l) == escape_char(s[0]) + escaped(f.drop_last()));
        assert(escaped(s) =~= escape_char(s[0]) + escaped(f));
    }
}

proof fn lemma_unescape_one(c: char, rest: Seq<char>)
    ensures
        unescaped(escape_char(c) + rest) == seq![c] + unescaped(rest),
{
    lemma_escape_char_entities(c);
    let e = escape_char(c);
    let s = e + rest;
    if c == '&' {
        assert(s.take(5) =~= entity_amp());
        assert(s.skip(5) =~= rest);
    } else if c == '<' {
        assert(s.take(4) =~= entity_lt());
        assert(s.skip(4) =~= rest);
        assert(s[1] == 'l');
        assert(!begins_with(s, entity_amp()));
    } else if c == '>' {
        assert(s.take(4) =~= entity_gt());
        assert(s.skip(4) =~= rest);
        assert(s[1] == 'g');
        assert(!begins_with(s, entity_amp()));
        assert(!begins_with(s, entity_lt()));
    } else if c == '"' {
        assert(s.take(6) =~= entity_quot());
        assert(s.skip(6) =~= rest);
        assert(s[1] == 'q');
        assert(!begins_with(s, entity_amp()));
        assert(!begins_with(s, entity_lt()));
        assert(!begins_with(s, entity_gt()));
    } else if c == '\'' {
        assert(s.take(5) =~= entity_apos());
        assert(s.skip(5) =~= rest);
        assert(s[1] == '#');
        assert(!begins_with(s, entity_amp()));
        assert(!begins_with(s, entity_lt()));
        assert(!begins_with(s, entity_gt()));
        assert(!begins_with(s, entity_quot()));
    } else {
        assert(e == seq![c]);
        assert(s[0] == c);
        assert(!begins_with(s, entity_amp()) && !begins_with(s, entity_lt()) && !begins_with(s, entity_gt())
            && !begins_with(s, entity_quot()) && !begins_with(s, entity_apos())) by {
            if begins_with(s, entity_amp()) {
                assert(s.take(5)[0] == '&');
            }
            if begins_with(s, entity_lt()) {
                assert(s.take(4)[0] == '&');
            }
            if begins_with(s, entity_gt()) {
                assert(s.take(4)[0] == '&');
            }
            if begins_with(s, entity_quot()) {
                assert(s.take(6)[0] == '&');
            }
            if begins_with(s, entity_apos()) {
                assert(s.take(5)[0] == '&');
            }
        }
        assert(s.drop_first() =~= rest);
    }
}

/// Decoding the five entities of an escaped text, in one pass from the
/// left, gives the text back.
pub proof fn law_unescape_undoes_escape(s: Seq<char>)
    ensures
        unescaped(escaped(s)) == s,
    decreases s.len(),
{
    if s.len() == 0 {
        assert(escaped(s) =~= Seq::<char>::empty());
    } else {
        lemma_escaped_front(s);
        law_unescape_undoes_escape(s.drop_first());
        lemma_unescape_one(s[0], escaped(s.drop_first()));
        assert(seq![s[0]] + s.drop_first() =~= s);
    }
}

/// Every `&` of an escaped text begins one of the five entities.
pub proof fn law_escaped_ampersands_begin_entities(s: Seq<char>)
    ensures
        forall|i: int| 0 <= i < escaped(s).len() && #[trigger] escaped(s)[i] == '&' ==> begins_with_entity(
            escaped(s).skip(i),
        ),
    decreases s.len(),
{
    if s.len() > 0 {
        law_escaped_ampersands_begin_entities(s.drop_last());
        let a = escaped(s.drop_last());
        let c = s.last();
        let b = escape_char(c);
        lemma_escape_char_entities(c);
        let r = a + b;
        assert(escaped(s) == r);
        assert forall|i: int| 0 <= i < r.len() && #[trigger] r[i] == '&' implies begins_with_entity(r.skip(i)) by {
            if i < a.len() {
                assert(a[i] == '&');
                assert(begins_with_entity(a.skip(i)));
                let t = a.skip(i);
                assert forall|n: int| 0 <= n <= t.len() implies #[trigger] r.skip(i).take(n) == t.take(n) by {
                    assert(r.skip(i).take(n) =~= t.take(n));
                }
                if begins_with(t, entity_amp()) {
                    assert(r.skip(i).take(5) == t.take(5));
                } else if begins_with(t, entity_lt()) {
                    assert(r.skip(i).take(4) == t.take(4));
                } else if begins_with(t, entity_gt()) {
                    assert(r.skip(i).take(4) == t.take(4));
                } else if begins_with(t, entity_quot()) {
                    assert(r.skip(i).take(6) == t.take(6));
                } else {
                    assert(r.skip(i).take(5) == t.take(5));
                }
            } else {
                let j = i - a.len();
                assert(r[i] == b[j]);
                if c != '&' && c != '<' && c != '>' && c != '"' && c != '\'' {
                    assert(b == seq![c]);
                    assert(false);
                }
                if j > 0 {
                    assert(b[j] != '&');
                    assert(false);
                }
                assert(r.skip(i) =~= b);
                assert(b.take(b.len() as int) =~= b);
            }
        }
    }
}

/// Escaping keeps a text without special characters unchanged.
pub proof fn law_escape_keeps_plain_text(s: Seq<char>)
    ensures
        (forall|i: int| 0 <= i < s.len() ==> s[i] != '&' && s[i] != '<' && s[i] != '>' && s[i] != '"' && s[i]
            != '\'') ==> escaped(s) == s,
    decreases s.len(),
{
    if s.len() > 0 {
        law_escape_keeps_plain_text(s.drop_last());
        if forall|i: int| 0 <= i < s.len() ==> s[i] != '&' && s[i] != '<' && s[i] != '>' && s[i] != '"' && s[i]
            != '\'' {
            assert(forall|i: int| 0 <= i < s.drop_last().len() ==> s.drop_last()[i] == s[i]);
            assert(escaped(s.drop_last()) == s.drop_last());
            assert(s.drop_last() + seq![s.last()] =~= s);
        }
    }
}

/// The character of decimal digit `d`.
pub open spec fn digit_char(d: nat) -> char {
    if d == 0 {
        '0'
    } else if d == 1 {
        '1'
    } else if d == 2 {
        '2'
    } else if d == 3 {
        '3'
    } else if d == 4 {
        '4'
    } else if d == 5 {
        '5'
    } else if d == 6 {
        '6'
    } else if d == 7 {
        '7'
    } else if d == 8 {
        '8'
    } else {
        '9'
    }
}

/// The decimal notation of `n`.
pub open spec fn decimal(n: nat) -> Seq<char>
    decreases n,
{
    if n < 10 {
        seq![digit_char(n)]
    } else {
        decimal(n / 10).push(digit_char(n % 10))
    }
}

fn digit(d: usize) -> (c: char)
    requires
        d < 10,
    ensures
        c == digit_char(d as nat),
{
    if d == 0 {
        '0'
    } else if d == 1 {
        '1'
    } else if d == 2 {
        '2'
    } else if d == 3 {
        '3'
    } else if d == 4 {
        '4'
    } else if d == 5 {
        '5'
    } else if d == 6 {
        '6'
    } else if d == 7 {
        '7'
    } else if d == 8 {
        '8'
    } else {
        '9'
    }
}

fn decimal_chars(n: usize) -> (v: Vec<char>)
    ensures
        v@ == decimal(n as nat),
    decreases n,
{
    if n < 10 {
        let mut v = Vec::new();
        v.push(digit(n));
        assert(v@ =~= seq![digit_char(n as nat)]);
        v
    } else {
        let mut v = decimal_chars(n / 10);
        v.push(digit(n % 10));
        v
    }
}

/// The decimal notation of `n`.
pub fn decimal_string(n: usize) -> (r: String)
    ensures
        r@ == decimal(n as nat),
{
    let v = decimal_chars(n);
    string_from(v.as_slice())
}

/// How many attempts beyond the first a passed case needed, when any.
pub open spec fn extra_attempts_of(r: TestResult) -> Option<nat> {
    match r {
        TestResult::Passed { retries, .. } => if retries > 1 {
            Some((retries - 1) as nat)
        } else {
            None
        },
        _ => None,
    }
}

/// How many attempts beyond the first a passed case needed, when any.
pub fn extra_attempts(result: &TestResult) -> (r: Option<u16>)
    ensures
        r matches Some(k) ==> extra_attempts_of(*result) == Some(k as nat),
        r is None <==> extra_attempts_of(*result) is None,
{
    let retries = result.get_retries();
    if retries > 1 {
        Some(retries - 1)
    } else {
        None
    }
}

/// How a status is shown on the console.
#[derive(Debug, Clone, Copy, PartialEq, Eq, Structural)]
pub enum Tone {
    /// A pass.
    Good,
    /// A failure that the case allows here.
    Warning,
    /// A failure that the case does not allow here.
    Bad,
    /// A skipped case.
    Muted,
}

/// How the status of a result is shown on the console, for a run on `os`.
pub fn status_tone(result: &TestResult, os: &str) -> (r: Tone)
    ensures
        r == match result {
            TestResult::Passed { .. } => Tone::Good,
            TestResult::Failed { case, .. } => if case.allows_failure_on(os@) {
                Tone::Warning
            } else {
                Tone::Bad
            },
            TestResult::Skipped => Tone::Muted,
        },
{
    match result {
        TestResult::Passed { .. } => Tone::Good,
        TestResult::Failed { case, .. } => {
            if case.is_allowed_to_fail_on(os) {
                Tone::Warning
            } else {
                Tone::Bad
            }
        },
        TestResult::Skipped => Tone::Muted,
    }
}

/// The translation key of the heading of a failure's log: the build log for
/// a build failure, the test log otherwise.
pub fn failure_log_key(reason: FailureReason) -> (r: &'static str)
    ensures
        r@ == if reason == FailureReason::Build || reason == FailureReason::BuildFailed {
            "build_log"@
        } else {
            "test_log"@
        },
{
    match reason {
        FailureReason::Build | FailureReason::BuildFailed => "build_log",
        _ => "test_log",
    }
}

/// The error output shown for a result: for a failed build, the report of
/// its compiler errors (`messages` being the Cargo messages of its output's
/// lines); for another failure, its output; for any other result, the
/// "no error output" message.
pub open spec fn error_output_of(
    r: TestResult,
    messages: Seq<Option<CargoMessage>>,
    notice: Seq<char>,
    table: Seq<(Seq<char>, Seq<char>)>,
) -> Seq<char> {
    match r {
        TestResult::Failed { output, reason, .. } => if reason == FailureReason::Build || reason
            == FailureReason::BuildFailed {
            build_error_report(output@, messages, notice)
        } else {
            output@
        },
        _ => translated(table, "no_error_output"@),
    }
}

/// The error output shown for a result (see `error_output_of`).
pub fn get_error_output_from_result(
    result: &TestResult,
    messages: &[Option<CargoMessage>],
    notice: &str,
    tr: &Translations,
) -> (r: String)
    ensures
        r@ == error_output_of(*result, messages@, notice@, tr.table()),
{
    match result {
        TestResult::Failed { output, reason, .. } => {
            if *reason == FailureReason::Build || *reason == FailureReason::BuildFailed {
                format_build_error_output(output.as_str(), messages, notice)
            } else {
                output.clone()
            }
        },
        _ => translate(tr, "no_error_output"),
    }
}

/// How many results satisfy `p`.
pub open spec fn count_where(s: Seq<TestResult>, p: spec_fn(TestResult) -> bool) -> nat
    decreases s.len(),
{
    if s.len() == 0 {
        0
    } else {
        count_where(s.drop_last(), p) + if p(s.last()) {
            1nat
        } else {
            0nat
        }
    }
}

proof fn lemma_count_bound(s: Seq<TestResult>, p: spec_fn(TestResult) -> bool)
    ensures
        count_where(s, p) <= s.len(),
    decreases s.len(),
{
    if s.len() > 0 {
        lemma_count_bound(s.drop_last(), p);
    }
}

/// The numbers of passed, failed and skipped results.
pub fn summary_counts(results: &[TestResult]) -> (r: (usize, usize, usize))
    ensures
        r.0 == count_where(results@, |x: TestResult| x is Passed),
        r.1 == count_where(results@, |x: TestResult| x is Failed),
        r.2 == count_where(results@, |x: TestResult| x is Skipped),
{
    let ghost pp = |x: TestResult| x is Passed;
    let ghost pf = |x: TestResult| x is Failed;
    let ghost ps = |x: TestResult| x is Skipped;
    let mut passed: usize = 0;
    let mut failed: usize = 0;
    let mut skipped: usize = 0;
    let mut i: usize = 0;
    assert(results@.take(0) =~= Seq::<TestResult>::empty());
    while i < results.len()
        invariant
            i <= results@.len(),
            passed == count_where(results@.take(i as int), pp),
            failed == count_where(results@.take(i as int), pf),
            skipped == count_where(results@.take(i as int), ps),
            pp == (|x: TestResult| x is Passed),
            pf == (|x: TestResult| x is Failed),
            ps == (|x: TestResult| x is Skipped),
        decreases results@.len() - i,
    {
        assert(results@.take(i + 1).drop_last() =~= results@.take(i as int));
        proof {
            lemma_count_bound(results@.take(i as int), pp);
            lemma_count_bound(results@.take(i as int), pf);
            lemma_count_bound(results@.take(i as int), ps);
        }
        match &results[i] {
            TestResult::Passed { .. } => {
                passed += 1;
            },
            TestResult::Failed { .. } => {
                failed += 1;
            },
            TestResult::Skipped => {
                skipped += 1;
            },
        }
        i += 1;
    }
    assert(results@.take(i as int) =~= results@);
    (passed, failed, skipped)
}

/// Every result is passed, failed or skipped: the three counts add up to
/// the number of results.
pub proof fn law_summary_counts_add_up(s: Seq<TestResult>)
    ensures
        count_where(s, |x: TestResult| x is Passed) + count_where(s, |x: TestResult| x is Failed) + count_where(
            s,
            |x: TestResult| x is Skipped,
        ) == s.len(),
    decreases s.len(),
{
    if s.len() > 0 {
        law_summary_counts_add_up(s.drop_last());
    }
}

} // verus!

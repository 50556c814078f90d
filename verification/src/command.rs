//! Reading Cargo's JSON output: the lines of an output, the compiler errors it
//! reports and the test executable it built.
use vstd::prelude::*;
use crate::models::CargoMessage;
use crate::text::{chars_of, str_equal, string_from_range};

verus! {

/// Position of the first '\n' in `s` (its length when there is none).
pub open spec fn newline_index(s: Seq<char>) -> int
    decreases s.len(),
{
    if s.len() == 0 || s[0] == '\n' {
        0
    } else {
        1 + newline_index(s.drop_first())
    }
}

/// The first '\n' of `s` lies within it (at its end when there is none).
pub proof fn lemma_newline_index_bounds(s: Seq<char>)
    ensures
        0 <= newline_index(s) <= s.len(),
    decreases s.len(),
{
    if s.len() > 0 && s[0] != '\n' {
        lemma_newline_index_bounds(s.drop_first());
    }
}

/// A line without the '\r' that ended it before its '\n'.
pub open spec fn strip_cr(l: Seq<char>) -> Seq<char> {
    if l.len() > 0 && l.last() == '\r' {
        l.drop_last()
    } else {
        l
    }
}

/// The lines of `s`: split at each '\n', a "\r\n" ending counting as one;
/// the last line needs no line ending, and an empty text has no line.
pub open spec fn lines(s: Seq<char>) -> Seq<Seq<char>>
    decreases s.len(),
{
    if s.len() == 0 {
        Seq::empty()
    } else {
        let i = newline_index(s);
        proof {
            lemma_newline_index_bounds(s);
        }
        if i >= s.len() {
            seq![s]
        } else {
            seq![strip_cr(s.take(i))] + lines(s.skip(i + 1))
        }
    }
}

/// The parts of `parts` separated by `sep`.
pub open spec fn join(parts: Seq<Seq<char>>, sep: Seq<char>) -> Seq<char>
    decreases parts.len(),
{
    if parts.len() == 0 {
        Seq::empty()
    } else if parts.len() == 1 {
        parts[0]
    } else {
        join(parts.drop_last(), sep) + sep + parts.last()
    }
}

/// The text that a message contributes to a build error report: the
/// (preferably rendered) text of a compiler message at level "error".
pub open spec fn error_text(m: Option<CargoMessage>) -> Option<Seq<char>> {
    match m {
        Some(msg) => if msg.reason@ == "compiler-message"@ {
            match msg.message {
                Some(d) => if d.level@ == "error"@ {
                    Some(
                        match d.rendered {
                            Some(r) => r@,
                            None => d.message@,
                        },
                    )
                } else {
                    None
                },
                None => None,
            }
        } else {
            None
        },
        None => None,
    }
}

/// The error texts of the messages, in order.
pub open spec fn error_texts(ms: Seq<Option<CargoMessage>>) -> Seq<Seq<char>>
    decreases ms.len(),
{
    if ms.len() == 0 {
        Seq::empty()
    } else {
        match error_text(ms.last()) {
            Some(t) => error_texts(ms.drop_last()).push(t),
            None => error_texts(ms.drop_last()),
        }
    }
}

/// How many lines of raw output a report shows when no error was found.
pub open spec fn snippet_lines() -> nat {
    50
}

/// The first lines of `raw`, at most `snippet_lines()` of them.
pub open spec fn snippet(raw: Seq<char>) -> Seq<char> {
    let ls = lines(raw);
    join(ls.take(if ls.len() < snippet_lines() { ls.len() as int } else { snippet_lines() as int }), "\n"@)
}

/// The report of a failed build: the compiler's error texts, one per line;
/// when there are none, `notice`, a blank line and the first lines of the raw
/// output.
pub open spec fn build_error_report(raw: Seq<char>, ms: Seq<Option<CargoMessage>>, notice: Seq<char>) -> Seq<char> {
    let errs = error_texts(ms);
    if errs.len() == 0 {
        notice + "\n\n"@ + snippet(raw)
    } else {
        join(errs, "\n"@)
    }
}

proof fn lemma_lines_step(s: Seq<char>, start: int, i: int)
    requires
        0 <= start <= i <= s.len(),
        forall|k: int| start <= k < i ==> s[k] != '\n',
        i == s.len() || s[i] == '\n',
        start < s.len(),
    ensures
        newline_index(s.skip(start)) == i - start,
        s.skip(start).take(i - start) == s.subrange(start, i),
        i < s.len() ==> s.skip(start).skip(i - start + 1) == s.skip(i + 1),
    decreases i - start,
{
    let t = s.skip(start);
    assert(t[0] == s[start]);
    if i > start {
        assert(t.drop_first() =~= s.skip(start + 1));
        if start + 1 < s.len() {
            lemma_lines_step(s, start + 1, i);
        } else {
            assert(s.skip(start + 1).len() == 0);
        }
    }
    assert(t.take(i - start) =~= s.subrange(start, i));
    if i < s.len() {
        assert(t.skip(i - start + 1) =~= s.skip(i + 1));
    }
}

/// The lines of an output.
pub fn output_lines(raw: &str) -> (r: Vec<String>)
    ensures
        r@.map_values(|l: String| l@) == lines(raw@),
{
    let cs = chars_of(raw);
    let mut out: Vec<String> = Vec::new();
    let mut start: usize = 0;
    let ghost s = cs@;
    assert(s.skip(0) =~= s);
    while start < cs.len()
        invariant
            s == cs@,
            start <= s.len(),
            out@.map_values(|l: String| l@) + lines(s.skip(start as int)) == lines(s),
        decreases s.len() - start,
    {
        let mut i = start;
        while i < cs.len() && cs[i] != '\n'
            invariant
                start <= i <= s.len(),
                s == cs@,
                forall|k: int| start <= k < i ==> s[k] != '\n',
            decreases s.len() - i,
        {
            i += 1;
        }
        proof {
            lemma_lines_step(s, start as int, i as int);
        }
        let mut end = i;
        if i < cs.len() && i > start && cs[i - 1] == '\r' {
            end = i - 1;
        }
        let line = string_from_range(cs.as_slice(), start, end);
        let ghost before = out@.map_values(|l: String| l@);
        out.push(line);
        proof {
            assert(out@.map_values(|l: String| l@) =~= before.push(line@));
            if i < s.len() {
                assert(strip_cr(s.subrange(start as int, i as int)) =~= line@);
                assert(before + (seq![line@] + lines(s.skip(i + 1))) =~= before.push(line@) + lines(s.skip(i + 1)));
            } else {
                assert(s.skip(start as int) =~= s.subrange(start as int, i as int));
                assert(line@ =~= s.subrange(start as int, i as int));
                assert(s.skip(i as int).len() == 0);
                assert(lines(s.skip(i as int)) =~= Seq::<Seq<char>>::empty());
                assert(before + seq![line@] =~= before.push(line@) + Seq::<Seq<char>>::empty());
            }
        }
        if i < cs.len() {
            start = i + 1;
        } else {
            start = i;
        }
    }
    assert(s.skip(start as int).len() == 0);
    assert(lines(s.skip(start as int)) =~= Seq::<Seq<char>>::empty());
    assert(out@.map_values(|l: String| l@) + Seq::<Seq<char>>::empty() =~= out@.map_values(|l: String| l@));
    out
}

/// The error text of one message, if it reports a compiler error.
pub fn message_error_text(m: &Option<CargoMessage>) -> (r: Option<String>)
    ensures
        r is Some <==> error_text(*m) is Some,
        r matches Some(t) ==> t@ == error_text(*m)->Some_0,
{
    match m {
        Some(msg) => {
            if str_equal(msg.reason.as_str(), "compiler-message") {
                match &msg.message {
                    Some(d) => {
                        if str_equal(d.level.as_str(), "error") {
                            match &d.rendered {
                                Some(r) => Some(r.clone()),
                                None => Some(d.message.clone()),
                            }
                        } else {
                            None
                        }
                    },
                    None => None,
                }
            } else {
                None
            }
        },
        None => None,
    }
}

/// Appends the parts of `parts` separated by `sep` to `out`.
fn append_joined(out: &mut String, parts: &Vec<String>, sep: &str)
    ensures
        final(out)@ == old(out)@ + join(parts@.map_values(|p: String| p@), sep@),
{
    let ghost start = out@;
    let ghost views = parts@.map_values(|p: String| p@);
    let mut i: usize = 0;
    assert(views.take(0) =~= Seq::<Seq<char>>::empty());
    while i < parts.len()
        invariant
            i <= parts@.len(),
            views == parts@.map_values(|p: String| p@),
            out@ == start + join(views.take(i as int), sep@),
        decreases parts@.len() - i,
    {
        assert(views.take(i + 1).drop_last() =~= views.take(i as int));
        if i > 0 {
            out.append(sep);
        } else {
            assert(views.take(1) =~= seq![views[0]]);
        }
        out.append(parts[i].as_str());
        i += 1;
    }
    assert(views.take(i as int) =~= views);
}

/// Extracts the compiler errors from Cargo's JSON output.
///
/// `messages` holds, for each line of `raw_output`, the Cargo message it
/// parses to (`None` for a line that is not one). The report lists the error
/// texts (rendered when available), one per line; when no error is found it
/// is `notice`, a blank line and the first 50 lines of the raw output.
pub fn format_build_error_output(raw_output: &str, messages: &[Option<CargoMessage>], notice: &str) -> (r: String)
    ensures
        r@ == build_error_report(raw_output@, messages@, notice@),
{
    let mut errs: Vec<String> = Vec::new();
    let mut i: usize = 0;
    assert(messages@.take(0) =~= Seq::<Option<CargoMessage>>::empty());
    while i < messages.len()
        invariant
            i <= messages@.len(),
            errs@.map_values(|p: String| p@) == error_texts(messages@.take(i as int)),
        decreases messages@.len() - i,
    {
        assert(messages@.take(i + 1).drop_last() =~= messages@.take(i as int));
        let ghost before = errs@.map_values(|p: String| p@);
        match message_error_text(&messages[i]) {
            Some(t) => {
                errs.push(t);
                assert(errs@.map_values(|p: String| p@) =~= before.push(error_text(messages@[i as int])->Some_0));
            },
            None => {},
        }
        i += 1;
    }
    assert(messages@.take(i as int) =~= messages@);
    let mut out = String::new();
    if errs.len() == 0 {
        out.append(notice);
        out.append("\n\n");
        let all = output_lines(raw_output);
        let n = if all.len() < 50 {
            all.len()
        } else {
            50
        };
        let mut first: Vec<String> = Vec::new();
        let mut k: usize = 0;
        while k < n
            invariant
                k <= n <= all@.len(),
                first@ == all@.take(k as int),
            decreases n - k,
        {
            first.push(all[k].clone());
            assert(all@.take(k as int).push(all@[k as int]) =~= all@.take(k + 1));
            k += 1;
        }
        assert(first@.map_values(|p: String| p@) =~= lines(raw_output@).take(n as int));
        append_joined(&mut out, &first, "\n");
        assert(out@ =~= notice@ + "\n\n"@ + snippet(raw_output@));
    } else {
        append_joined(&mut out, &errs, "\n");
        assert(out@ =~= join(error_texts(messages@), "\n"@));
    }
    out
}

/// Whether a message reports a test executable, and which.
pub open spec fn test_executable_of(m: Option<CargoMessage>) -> Option<Seq<char>> {
    match m {
        Some(msg) => if msg.reason@ == "compiler-artifact"@ {
            match (msg.target, msg.executable) {
                (Some(t), Some(e)) => if t.test {
                    Some(e@)
                } else {
                    None
                },
                _ => None,
            }
        } else {
            None
        },
        None => None,
    }
}

/// The test executable of the first message that reports one; empty when
/// none does.
pub open spec fn first_test_executable(ms: Seq<Option<CargoMessage>>) -> Seq<char>
    decreases ms.len(),
{
    if ms.len() == 0 {
        Seq::empty()
    } else {
        match test_executable_of(ms[0]) {
            Some(e) => e,
            None => first_test_executable(ms.drop_first()),
        }
    }
}

/// The test executable that a build reported: that of the first artifact
/// message whose target is a test; empty when there is none.
pub fn find_test_executable(messages: &[Option<CargoMessage>]) -> (r: String)
    ensures
        r@ == first_test_executable(messages@),
{
    let mut i: usize = 0;
    assert(messages@.skip(0) =~= messages@);
    while i < messages.len()
        invariant
            i <= messages@.len(),
            first_test_executable(messages@) == first_test_executable(messages@.skip(i as int)),
        decreases messages@.len() - i,
    {
        assert(messages@.skip(i as int).drop_first() =~= messages@.skip(i + 1));
        assert(messages@.skip(i as int)[0] == messages@[i as int]);
        match &messages[i] {
            Some(msg) => {
                if str_equal(msg.reason.as_str(), "compiler-artifact") {
                    match (&msg.target, &msg.executable) {
                        (Some(t), Some(e)) => {
                            if t.test {
                                return e.clone();
                            }
                        },
                        _ => {},
                    }
                }
            },
            None => {},
        }
        i += 1;
    }
    String::new()
}

} // verus!

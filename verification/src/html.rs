//! The HTML report of a run.
use vstd::prelude::*;
use crate::i18n::{translate, translated, Translations};
use crate::models::{CargoMessage, TestResult};
use crate::reporting::{
    decimal, decimal_string, error_output_of, escape_html, escaped, extra_attempts, extra_attempts_of,
    get_error_output_from_result, summary_counts, count_where, HTML_SCRIPT, HTML_STYLE,
};

verus! {

/// One summary item: a count and its label.
pub open spec fn summary_item(class: Seq<char>, count: nat, label: Seq<char>) -> Seq<char> {
    "<div class='summary-item'><span class='count"@ + class + "'>"@ + decimal(count)
        + "</span><span class='label'>"@ + label + "</span></div>"@
}

/// The start of the report, up to its main heading.
pub open spec fn head_part(t: Seq<(Seq<char>, Seq<char>)>) -> Seq<char> {
    "<!DOCTYPE html><html><head><title>"@ + translated(t, "html_report.title"@) + "</title>"@ + "<style>"@
        + HTML_STYLE@ + "</style>"@ + "</head><body>"@ + "<h1>"@ + translated(t, "html_report.main_header"@)
        + "</h1>"@
}

/// The summary: the numbers of cases, passes, failures and skipped cases.
pub open spec fn summary_part(
    t: Seq<(Seq<char>, Seq<char>)>,
    total: nat,
    passed: nat,
    failed: nat,
    skipped: nat,
) -> Seq<char> {
    "<div class='summary-container'>"@ + summary_item(""@, total, translated(t, "html_report.summary.total"@))
        + summary_item(" passed-text"@, passed, translated(t, "html_report.summary.passed"@)) + summary_item(
        " failed-text"@,
        failed,
        translated(t, "html_report.summary.failed"@),
    ) + summary_item(" skipped-text"@, skipped, translated(t, "html_report.summary.skipped"@)) + "</div>"@
}

/// The start of the results table, with its header row.
pub open spec fn table_head_part(t: Seq<(Seq<char>, Seq<char>)>) -> Seq<char> {
    "<table><thead><tr>"@ + "<th>"@ + translated(t, "html_report.table.header.name"@) + "</th>"@
        + "<th class='status-col'>"@ + translated(t, "html_report.table.header.status"@) + "</th>"@
        + "<th class='duration-cell'>"@ + translated(t, "html_report.table.header.duration"@) + "</th>"@
        + "<th class='retries-cell'>"@ + translated(t, "html_report.table.header.retries"@) + "</th>"@
        + "</tr></thead><tbody>"@
}

/// The end of the report.
pub open spec fn tail_part() -> Seq<char> {
    "</tbody></table>"@ + "<script>"@ + HTML_SCRIPT@ + "</script></body></html>"@
}

/// The row of the `i`-th result, followed, for a failure, by a hidden row
/// with its escaped error output.
pub open spec fn row_part(
    i: nat,
    r: TestResult,
    duration: Option<Seq<char>>,
    messages: Seq<Option<CargoMessage>>,
    notice: Seq<char>,
    t: Seq<(Seq<char>, Seq<char>)>,
    os: Seq<char>,
) -> Seq<char> {
    let id = "output-"@ + decimal(i);
    let toggle = if r is Failed {
        "<div class='output-toggle' onclick=\"toggleOutput('"@ + id + "')\">"@ + translated(
            t,
            "html_report.toggle_output"@,
        ) + "</div>"@
    } else {
        Seq::empty()
    };
    let retries = match extra_attempts_of(r) {
        Some(k) => decimal(k),
        None => Seq::empty(),
    };
    let details = if r is Failed {
        "<tr id='"@ + id + "' style='display:none;'><td colspan='4'><pre class='output-content'>"@ + escaped(
            error_output_of(r, messages, notice, t),
        ) + "</pre></td></tr>"@
    } else {
        Seq::empty()
    };
    let dur = match duration {
        Some(d) => d,
        None => "N/A"@,
    };
    "<tr>"@ + "<td>"@ + r.name_of() + "</td>"@ + "<td class='status-col'><div class='status-cell "@
        + r.status_class_of(os) + "'>"@ + translated(t, r.status_key_of(os)) + "</div>"@ + toggle + "</td>"@
        + "<td class='duration-cell'>"@ + dur + "</td>"@ + "<td class='retries-cell'>"@ + retries + "</td>"@
        + "</tr>"@ + details
}

/// The duration texts, as character sequences.
pub open spec fn durations_view(d: Seq<Option<String>>) -> Seq<Option<Seq<char>>> {
    d.map_values(|x: Option<String>| match x {
        Some(s) => Some(s@),
        None => None::<Seq<char>>,
    })
}

/// The rows of the first `n` results.
pub open spec fn rows_part(
    rs: Seq<TestResult>,
    ds: Seq<Option<Seq<char>>>,
    ms: Seq<Vec<Option<CargoMessage>>>,
    notice: Seq<char>,
    t: Seq<(Seq<char>, Seq<char>)>,
    os: Seq<char>,
    n: nat,
) -> Seq<char>
    decreases n,
{
    if n == 0 {
        Seq::empty()
    } else {
        rows_part(rs, ds, ms, notice, t, os, (n - 1) as nat) + row_part(
            (n - 1) as nat,
            rs[n - 1],
            ds[n - 1],
            ms[n - 1]@,
            notice,
            t,
            os,
        )
    }
}

/// The whole HTML report.
pub open spec fn html_report(
    rs: Seq<TestResult>,
    ds: Seq<Option<Seq<char>>>,
    ms: Seq<Vec<Option<CargoMessage>>>,
    notice: Seq<char>,
    t: Seq<(Seq<char>, Seq<char>)>,
    os: Seq<char>,
) -> Seq<char> {
    head_part(t) + summary_part(
        t,
        rs.len(),
        count_where(rs, |x: TestResult| x is Passed),
        count_where(rs, |x: TestResult| x is Failed),
        count_where(rs, |x: TestResult| x is Skipped),
    ) + table_head_part(t) + rows_part(rs, ds, ms, notice, t, os, rs.len()) + tail_part()
}

fn head_html(tr: &Translations) -> (r: String)
    ensures
        r@ == head_part(tr.table()),
{
    let mut s = String::from_str("<!DOCTYPE html><html><head><title>");
    s.append(translate(tr, "html_report.title").as_str());
    s.append("</title>");
    s.append("<style>");
    s.append(HTML_STYLE);
    s.append("</style>");
    s.append("</head><body>");
    s.append("<h1>");
    s.append(translate(tr, "html_report.main_header").as_str());
    s.append("</h1>");
    s
}

fn summary_item_html(class: &str, count: usize, label: String) -> (r: String)
    ensures
        r@ == summary_item(class@, count as nat, label@),
{
    let mut s = String::from_str("<div class='summary-item'><span class='count");
    s.append(class);
    s.append("'>");
    s.append(decimal_string(count).as_str());
    s.append("</span><span class='label'>");
    s.append(label.as_str());
    s.append("</span></div>");
    s
}

fn summary_html(tr: &Translations, total: usize, passed: usize, failed: usize, skipped: usize) -> (r: String)
    ensures
        r@ == summary_part(tr.table(), total as nat, passed as nat, failed as nat, skipped as nat),
{
    let mut s = String::from_str("<div class='summary-container'>");
    s.append(summary_item_html("", total, translate(tr, "html_report.summary.total")).as_str());
    s.append(summary_item_html(" passed-text", passed, translate(tr, "html_report.summary.passed")).as_str());
    s.append(summary_item_html(" failed-text", failed, translate(tr, "html_report.summary.failed")).as_str());
    s.append(summary_item_html(" skipped-text", skipped, translate(tr, "html_report.summary.skipped")).as_str());
    s.append("</div>");
    s
}

fn table_head_html(tr: &Translations) -> (r: String)
    ensures
        r@ == table_head_part(tr.table()),
{
    let mut s = String::from_str("<table><thead><tr>");
    s.append("<th>");
    s.append(translate(tr, "html_report.table.header.name").as_str());
    s.append("</th>");
    s.append("<th class='status-col'>");
    s.append(translate(tr, "html_report.table.header.status").as_str());
    s.append("</th>");
    s.append("<th class='duration-cell'>");
    s.append(translate(tr, "html_report.table.header.duration").as_str());
    s.append("</th>");
    s.append("<th class='retries-cell'>");
    s.append(translate(tr, "html_report.table.header.retries").as_str());
    s.append("</th>");
    s.append("</tr></thead><tbody>");
    s
}

fn row_html(
    i: usize,
    result: &TestResult,
    duration: &Option<String>,
    messages: &[Option<CargoMessage>],
    notice: &str,
    tr: &Translations,
    os: &str,
) -> (r: String)
    ensures
        r@ == row_part(
            i as nat,
            *result,
            match duration {
                Some(d) => Some(d@),
                None => None::<Seq<char>>,
            },
            messages@,
            notice@,
            tr.table(),
            os@,
        ),
{
    let mut id = String::from_str("output-");
    id.append(decimal_string(i).as_str());
    let failed = result.is_failure();
    let mut toggle = String::new();
    if failed {
        toggle.append("<div class='output-toggle' onclick=\"toggleOutput('");
        toggle.append(id.as_str());
        toggle.append("')\">");
        toggle.append(translate(tr, "html_report.toggle_output").as_str());
        toggle.append("</div>");
    }
    let retries = match extra_attempts(result) {
        Some(k) => decimal_string(k as usize),
        None => String::new(),
    };
    let mut details = String::new();
    if failed {
        details.append("<tr id='");
        details.append(id.as_str());
        details.append("' style='display:none;'><td colspan='4'><pre class='output-content'>");
        let err = get_error_output_from_result(result, messages, notice, tr);
        details.append(escape_html(err.as_str()).as_str());
        details.append("</pre></td></tr>");
    }
    let dur = match duration {
        Some(d) => d.clone(),
        None => String::from_str("N/A"),
    };
    let mut s = String::from_str("<tr>");
    s.append("<td>");
    s.append(result.case_name());
    s.append("</td>");
    s.append("<td class='status-col'><div class='status-cell ");
    s.append(result.get_status_class(os));
    s.append("'>");
    s.append(translate(tr, result.get_status_key(os)).as_str());
    s.append("</div>");
    s.append(toggle.as_str());
    s.append("</td>");
    s.append("<td class='duration-cell'>");
    s.append(dur.as_str());
    s.append("</td>");
    s.append("<td class='retries-cell'>");
    s.append(retries.as_str());
    s.append("</td>");
    s.append("</tr>");
    s.append(details.as_str());
    s
}

/// Renders the HTML report of a run on `os`.
///
/// For each result, `durations` holds its formatted duration (`None` when it
/// has none, shown as "N/A") and `parsed_outputs` the Cargo messages of its
/// output's lines; `notice` heads a build error report that found no compiler
/// error.
pub fn render_html_report(
    results: &[TestResult],
    durations: &[Option<String>],
    parsed_outputs: &[Vec<Option<CargoMessage>>],
    notice: &str,
    tr: &Translations,
    os: &str,
) -> (r: String)
    requires
        durations@.len() == results@.len(),
        parsed_outputs@.len() == results@.len(),
    ensures
        r@ == html_report(results@, durations_view(durations@), parsed_outputs@, notice@, tr.table(), os@),
        holds_part(
            r@,
            summary_item(
                " passed-text"@,
                count_where(results@, |x: TestResult| x is Passed),
                translated(tr.table(), "html_report.summary.passed"@),
            ),
        ),
        holds_part(
            r@,
            summary_item(
                " failed-text"@,
                count_where(results@, |x: TestResult| x is Failed),
                translated(tr.table(), "html_report.summary.failed"@),
            ),
        ),
        holds_part(
            r@,
            summary_item(
                " skipped-text"@,
                count_where(results@, |x: TestResult| x is Skipped),
                translated(tr.table(), "html_report.summary.skipped"@),
            ),
        ),
{
    proof {
        law_summary_shows_the_counts(
            results@,
            durations_view(durations@),
            parsed_outputs@,
            notice@,
            tr.table(),
            os@,
        );
    }
    let (passed, failed, skipped) = summary_counts(results);
    let mut out = head_html(tr);
    out.append(summary_html(tr, results.len(), passed, failed, skipped).as_str());
    out.append(table_head_html(tr).as_str());
    let ghost prefix = out@;
    let ghost ds = durations_view(durations@);
    let mut i: usize = 0;
    while i < results.len()
        invariant
            i <= results@.len(),
            durations@.len() == results@.len(),
            parsed_outputs@.len() == results@.len(),
            ds == durations_view(durations@),
            out@ == prefix + rows_part(results@, ds, parsed_outputs@, notice@, tr.table(), os@, i as nat),
        decreases results@.len() - i,
    {
        let row = row_html(i, &results[i], &durations[i], parsed_outputs[i].as_slice(), notice, tr, os);
        out.append(row.as_str());
        i += 1;
    }
    out.append("</tbody></table>");
    out.append("<script>");
    out.append(HTML_SCRIPT);
    out.append("</script></body></html>");
    out
}


/// `s` is `p`, then `x`, then `q`.
pub open spec fn is_split(s: Seq<char>, p: Seq<char>, x: Seq<char>, q: Seq<char>) -> bool {
    s == p + x + q
}

/// `x` occurs in `s`.
pub open spec fn holds_part(s: Seq<char>, x: Seq<char>) -> bool {
    exists|p: Seq<char>, q: Seq<char>| #[trigger] is_split(s, p, x, q)
}

/// The summary of the report shows the number of results in its total item,
/// the number of passed results in its passed item, the number of failed
/// results in its failed item and the number of skipped results in its
/// skipped item.
pub proof fn law_summary_shows_the_counts(
    rs: Seq<TestResult>,
    ds: Seq<Option<Seq<char>>>,
    ms: Seq<Vec<Option<CargoMessage>>>,
    notice: Seq<char>,
    t: Seq<(Seq<char>, Seq<char>)>,
    os: Seq<char>,
)
    ensures
        holds_part(
            html_report(rs, ds, ms, notice, t, os),
            summary_item(""@, rs.len(), translated(t, "html_report.summary.total"@)),
        ),
        holds_part(
            html_report(rs, ds, ms, notice, t, os),
            summary_item(
                " passed-text"@,
                count_where(rs, |x: TestResult| x is Passed),
                translated(t, "html_report.summary.passed"@),
            ),
        ),
        holds_part(
            html_report(rs, ds, ms, notice, t, os),
            summary_item(
                " failed-text"@,
                count_where(rs, |x: TestResult| x is Failed),
                translated(t, "html_report.summary.failed"@),
            ),
        ),
        holds_part(
            html_report(rs, ds, ms, notice, t, os),
            summary_item(
                " skipped-text"@,
                count_where(rs, |x: TestResult| x is Skipped),
                translated(t, "html_report.summary.skipped"@),
            ),
        ),
{
    let h = html_report(rs, ds, ms, notice, t, os);
    let i0 = summary_item(""@, rs.len(), translated(t, "html_report.summary.total"@));
    let i1 = summary_item(
        " passed-text"@,
        count_where(rs, |x: TestResult| x is Passed),
        translated(t, "html_report.summary.passed"@),
    );
    let i2 = summary_item(
        " failed-text"@,
        count_where(rs, |x: TestResult| x is Failed),
        translated(t, "html_report.summary.failed"@),
    );
    let i3 = summary_item(
        " skipped-text"@,
        count_where(rs, |x: TestResult| x is Skipped),
        translated(t, "html_report.summary.skipped"@),
    );
    let pre = head_part(t) + "<div class='summary-container'>"@;
    let post = "</div>"@ + table_head_part(t) + rows_part(rs, ds, ms, notice, t, os, rs.len()) + tail_part();
    assert(h =~= pre + i0 + i1 + i2 + i3 + post);
    assert(h =~= pre + i0 + (i1 + i2 + i3 + post));
    assert(is_split(h, pre, i0, i1 + i2 + i3 + post));
    assert(h =~= pre + i0 + i1 + (i2 + i3 + post));
    assert(is_split(h, pre + i0, i1, i2 + i3 + post));
    assert(h =~= pre + i0 + i1 + i2 + (i3 + post));
    assert(is_split(h, pre + i0 + i1, i2, i3 + post));
    assert(is_split(h, pre + i0 + i1 + i2, i3, post));
}

} // verus!

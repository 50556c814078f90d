//! Reports of a run.

use matrix_runner::config::TestCase;
use matrix_runner::html::render_html_report;
use matrix_runner::i18n::init;
use matrix_runner::models::{CargoDiagnostic, CargoMessage, FailureReason, TestResult};
use matrix_runner::reporting::{
    decimal_string, escape_html, extra_attempts, failure_log_key, get_error_output_from_result, status_tone,
    summary_counts, Tone, HTML_SCRIPT, HTML_STYLE,
};
use std::time::Duration;

fn case(name: &str, allow: &[&str]) -> TestCase {
    TestCase {
        name: name.to_string(),
        allow_failure: allow.iter().map(|s| s.to_string()).collect(),
        ..TestCase::default()
    }
}

fn passed(name: &str, retries: u16) -> TestResult {
    TestResult::Passed { case: case(name, &[]), output: "ok".to_string(), duration: Duration::from_secs(1), retries }
}

fn failed(name: &str, allow: &[&str], reason: FailureReason, output: &str) -> TestResult {
    TestResult::Failed { case: case(name, allow), output: output.to_string(), reason, duration: Duration::from_secs(2) }
}

#[test]
fn escape_html_replaces_special_characters() {
    assert_eq!(escape_html("<a href=\"x\">Tom & Jerry's</a>"), "&lt;a href=&quot;x&quot;&gt;Tom &amp; Jerry&#39;s&lt;/a&gt;");
    assert_eq!(escape_html("plain text 测试"), "plain text 测试");
    assert_eq!(escape_html("&amp;"), "&amp;amp;");
    assert_eq!(escape_html(""), "");
}

#[test]
fn decimal_notation() {
    assert_eq!(decimal_string(0), "0");
    assert_eq!(decimal_string(7), "7");
    assert_eq!(decimal_string(10), "10");
    assert_eq!(decimal_string(1234567890), "1234567890");
}

#[test]
fn extra_attempts_only_after_a_retry() {
    assert_eq!(extra_attempts(&passed("a", 1)), None);
    assert_eq!(extra_attempts(&passed("a", 3)), Some(2));
    assert_eq!(extra_attempts(&TestResult::Skipped), None);
    assert_eq!(extra_attempts(&failed("f", &[], FailureReason::TestFailed, "")), None);
}

#[test]
fn tones_and_log_keys() {
    assert_eq!(status_tone(&passed("a", 1), "linux"), Tone::Good);
    assert_eq!(status_tone(&failed("f", &["linux"], FailureReason::TestFailed, ""), "linux"), Tone::Warning);
    assert_eq!(status_tone(&failed("f", &["linux"], FailureReason::TestFailed, ""), "windows"), Tone::Bad);
    assert_eq!(status_tone(&TestResult::Skipped, "linux"), Tone::Muted);
    assert_eq!(failure_log_key(FailureReason::Build), "build_log");
    assert_eq!(failure_log_key(FailureReason::BuildFailed), "build_log");
    assert_eq!(failure_log_key(FailureReason::Timeout), "test_log");
    assert_eq!(failure_log_key(FailureReason::CustomCommand), "test_log");
}

#[test]
fn error_output_of_each_kind_of_result() {
    let en = init("en").unwrap();
    let err = CargoMessage {
        reason: "compiler-message".to_string(),
        target: None,
        executable: None,
        message: Some(CargoDiagnostic { level: "error".to_string(), message: "E1".to_string(), rendered: None }),
        filenames: vec![],
    };
    let build = failed("b", &[], FailureReason::Build, "{json}");
    assert_eq!(get_error_output_from_result(&build, &[Some(err)], "N", &en), "E1");
    assert_eq!(get_error_output_from_result(&build, &[None], "N", &en), "N\n\n{json}");
    let test = failed("t", &[], FailureReason::TestFailed, "panicked");
    assert_eq!(get_error_output_from_result(&test, &[], "N", &en), "panicked");
    assert_eq!(get_error_output_from_result(&passed("p", 1), &[], "N", &en), "No error output.");
}

#[test]
fn summary_counts_by_variant() {
    let results = vec![
        passed("a", 1),
        failed("b", &[], FailureReason::TestFailed, ""),
        TestResult::Skipped,
        failed("c", &["linux"], FailureReason::Timeout, ""),
        passed("d", 2),
    ];
    assert_eq!(summary_counts(&results), (2, 2, 1));
}

#[test]
fn html_report_layout() {
    let en = init("en").unwrap();
    let results = vec![passed("good", 3), failed("bad", &[], FailureReason::TestFailed, "<oops>"), TestResult::Skipped];
    let durations = vec![Some("1.00s".to_string()), Some("2.00s".to_string()), None];
    let parsed = vec![vec![], vec![None], vec![]];
    let html = render_html_report(&results, &durations, &parsed, "N", &en, "linux");
    assert!(html.starts_with("<!DOCTYPE html><html><head><title>Test Report</title><style>"));
    assert!(html.contains(HTML_STYLE));
    assert!(html.contains("<h1>Test Matrix Report</h1>"));
    assert!(html.contains("<div class='summary-item'><span class='count'>3</span><span class='label'>Total</span></div>"));
    assert!(html.contains("<span class='count passed-text'>1</span>"));
    assert!(html.contains("<span class='count failed-text'>1</span>"));
    assert!(html.contains("<span class='count skipped-text'>1</span>"));
    assert!(html.contains(
        "<tr><td>good</td><td class='status-col'><div class='status-cell status-Passed'>Passed</div></td><td class='duration-cell'>1.00s</td><td class='retries-cell'>2</td></tr>"
    ));
    assert!(html.contains(
        "<div class='output-toggle' onclick=\"toggleOutput('output-1')\">Show output</div>"
    ));
    assert!(html.contains(
        "<tr id='output-1' style='display:none;'><td colspan='4'><pre class='output-content'>&lt;oops&gt;</pre></td></tr>"
    ));
    assert!(html.contains("<td class='duration-cell'>N/A</td>"));
    assert!(html.ends_with(&format!("</tbody></table><script>{}</script></body></html>", HTML_SCRIPT)));
}

#[test]
fn chinese_html_report_title() {
    let zh = init("zh-CN").unwrap();
    let html = render_html_report(&[], &[], &[], "N", &zh, "linux");
    assert!(html.contains("<title>测试报告</title>"));
}

#[test]
fn escaped_text_holds_no_markup() {
    let out = escape_html("<a href=\"x\" title='y'>Tom & Jerry</a>");
    assert!(!out.contains('<') && !out.contains('>') && !out.contains('"') && !out.contains('\''));
    assert_eq!(out, "&lt;a href=&quot;x&quot; title=&#39;y&#39;&gt;Tom &amp; Jerry&lt;/a&gt;");
}

/// Decodes the five entities in one pass from the left.
fn decode(s: &str) -> String {
    let mut out = String::new();
    let mut rest = s;
    while !rest.is_empty() {
        let mut matched = false;
        for (entity, c) in [("&amp;", '&'), ("&lt;", '<'), ("&gt;", '>'), ("&quot;", '"'), ("&#39;", '\'')] {
            if rest.starts_with(entity) {
                out.push(c);
                rest = &rest[entity.len()..];
                matched = true;
                break;
            }
        }
        if !matched {
            let c = rest.chars().next().unwrap();
            out.push(c);
            rest = &rest[c.len_utf8()..];
        }
    }
    out
}

#[test]
fn decoding_an_escaped_text_gives_it_back() {
    for text in ["&amp; is not &", "<'\"&lt;\"'>", "plain", "", "中文 & <b>"] {
        let out = escape_html(text);
        assert_eq!(decode(&out), text);
        for (i, _) in out.match_indices('&') {
            let tail = &out[i..];
            assert!(["&amp;", "&lt;", "&gt;", "&quot;", "&#39;"].iter().any(|e| tail.starts_with(e)));
        }
    }
}

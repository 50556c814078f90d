//! Translation of the runner's messages.

use matrix_runner::i18n::{init, lookup, select_locale, t, t_fmt, translate, translate_with, Translations};

fn load(language: &str) -> Translations {
    init(language).expect("the translation tables parse")
}

fn named(pairs: &[(&str, &str)]) -> Vec<(String, String)> {
    pairs.iter().map(|(k, v)| (k.to_string(), v.to_string())).collect()
}

#[test]
fn test_set_locale_and_translate() {
    let en = load("en");
    let en_text = translate_with(&en, "common.project_root_detected", &named(&[("path", "test/path")]));
    assert!(en_text.contains("Project root detected at: test/path"));

    let zh = load("zh-CN");
    let zh_text = translate_with(&zh, "common.project_root_detected", &named(&[("path", "测试/路径")]));
    assert!(zh_text.contains("检测到项目根目录于: 测试/路径"));

    assert_ne!(en_text, zh_text);
}

#[test]
fn test_fallback_to_default_locale() {
    let tr = load("fr");
    let fallback_text = translate(&tr, "common.all_tests_passed");
    assert!(
        fallback_text.contains("All tests passed successfully!")
            || fallback_text.contains("所有测试成功通过！")
    );
}

#[test]
fn test_translation_with_interpolation() {
    let en = load("en");
    let text = translate_with(&en, "common.testing_crate", &named(&[("name", "my-crate")]));
    assert_eq!(text, "Testing crate: my-crate");

    let zh = load("zh-CN");
    let text_zh = translate_with(&zh, "common.testing_crate", &named(&[("name", "我的包")]));
    assert_eq!(text_zh, "正在测试的 Crate: 我的包");
}

#[test]
fn test_sequential_locale_switching() {
    let en = load("en");
    let en_text = translate(&en, "common.all_tests_passed");
    assert_eq!(en_text, "All tests passed successfully!");

    let zh = load("zh-CN");
    let zh_text = translate(&zh, "common.all_tests_passed");
    assert_eq!(zh_text, "所有测试成功通过！");
}

#[test]
fn empty_language_is_english() {
    let tr = load("");
    assert_eq!(tr.locale, "en");
    assert_eq!(translate(&tr, "html_report.title"), "Test Report");
}

#[test]
fn unknown_language_falls_back_to_english_table() {
    let fr = load("fr");
    let en = load("en");
    assert_eq!(fr.locale, "en");
    assert_eq!(fr.entries, en.entries);
}

#[test]
fn chinese_table_is_loaded() {
    let zh = load("zh-CN");
    assert_eq!(zh.locale, "zh-CN");
    assert_eq!(translate(&zh, "html_report.title"), "测试报告");
    assert_eq!(translate(&zh, "unexpected_failure_banner"), "检测到意外失败");
}

#[test]
fn missing_key_translates_to_itself() {
    let en = load("en");
    assert_eq!(lookup(&en, "no.such.key"), None);
    assert_eq!(translate(&en, "no.such.key"), "no.such.key");
}

#[test]
fn t_returns_the_message() {
    let en = load("en");
    assert_eq!(t(&en, "report.status_passed"), "Passed");
    assert_eq!(lookup(&en, "report.status_timeout"), Some("Timeout".to_string()));
}

#[test]
fn t_fmt_fills_positional_placeholders_in_order() {
    let en = load("en");
    let text = t_fmt(&en, "kill_process_failed", &["permission denied".to_string()]);
    assert_eq!(text, "Failed to kill the process: permission denied");
    let unchanged = t_fmt(&en, "kill_process_failed", &[]);
    assert_eq!(unchanged, "Failed to kill the process: {}");
    let extra = t_fmt(&en, "kill_process_failed", &["a".to_string(), "b".to_string()]);
    assert_eq!(extra, "Failed to kill the process: a");
}

#[test]
fn named_placeholders_are_all_replaced() {
    let en = load("en");
    let text = translate_with(
        &en,
        "run.filtered_arch_cases",
        &named(&[("filtered", "2"), ("total", "5")]),
    );
    assert_eq!(text, "Filtered out 2 of 5 test case(s) based on current architecture.");
    let split = translate_with(
        &en,
        "run.running_as_split_runner",
        &named(&[("index", "0"), ("total", "2"), ("count", "3")]),
    );
    assert!(split.contains("Running as runner 0 of 2"));
}

#[test]
fn unused_argument_leaves_message_unchanged() {
    let en = load("en");
    let text = translate_with(&en, "common.all_tests_passed", &named(&[("name", "x")]));
    assert_eq!(text, "All tests passed successfully!");
}

#[test]
fn select_locale_prefers_full_then_language_part() {
    assert_eq!(select_locale(Some("zh-CN".to_string())), "zh-CN");
    assert_eq!(select_locale(Some("en-US".to_string())), "en");
    assert_eq!(select_locale(Some("fr-FR".to_string())), "en");
    assert_eq!(select_locale(Some("zh".to_string())), "en");
    assert_eq!(select_locale(None), "en");
}

#[test]
fn crate_init_chooses_an_available_locale() {
    let l = matrix_runner::init();
    assert!(l == "en" || l == "zh-CN");
}

#[test]
fn each_placeholder_of_the_message_takes_its_own_argument() {
    let tr = Translations {
        locale: "en".to_string(),
        entries: vec![("pair".to_string(), "{} and {}".to_string())],
    };
    assert_eq!(t_fmt(&tr, "pair", &["{}".to_string(), "x".to_string()]), "{} and x");
    assert_eq!(t_fmt(&tr, "pair", &["a".to_string(), "b".to_string()]), "a and b");
    assert_eq!(t_fmt(&tr, "pair", &["a".to_string()]), "a and {}");
}

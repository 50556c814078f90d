//! Reading Cargo's JSON output.

use matrix_runner::command::{find_test_executable, format_build_error_output, output_lines};
use matrix_runner::i18n::{init, translate};
use matrix_runner::models::{CargoDiagnostic, CargoMessage, CargoTarget};
use serde_json::Value;

fn text(v: &Value, key: &str) -> Option<Option<String>> {
    match v.get(key) {
        None | Some(Value::Null) => Some(None),
        Some(Value::String(s)) => Some(Some(s.clone())),
        Some(_) => None,
    }
}

/// The Cargo message a JSON line stands for, read field by field.
fn parse_line(line: &str) -> Option<CargoMessage> {
    let v: Value = serde_json::from_str(line).ok()?;
    let reason = text(&v, "reason")??;
    let target = match v.get("target") {
        None | Some(Value::Null) => None,
        Some(t) => Some(CargoTarget {
            name: text(t, "name")??,
            test: t.get("test")?.as_bool()?,
            kind: t
                .get("kind")?
                .as_array()?
                .iter()
                .map(|k| k.as_str().map(|s| s.to_string()))
                .collect::<Option<Vec<_>>>()?,
        }),
    };
    let message = match v.get("message") {
        None | Some(Value::Null) => None,
        Some(m) => Some(CargoDiagnostic {
            level: text(m, "level")??,
            message: text(m, "message")??,
            rendered: text(m, "rendered")?,
        }),
    };
    Some(CargoMessage { reason, target, executable: text(&v, "executable")?, message, filenames: vec![] })
}

fn format(raw: &str) -> String {
    let lines = output_lines(raw);
    let messages: Vec<Option<CargoMessage>> = lines.iter().map(|l| parse_line(l)).collect();
    let en = init("en").unwrap();
    let notice = translate(&en, "compiler_error_parse_failed");
    format_build_error_output(raw, &messages, &notice)
}

#[test]
fn test_format_build_error_output_with_valid_json_error() {
    let json_output = r#"{"reason":"compiler-message","package_id":"test 0.1.0 (path+file:///test)","manifest_path":"/test/Cargo.toml","target":{"kind":["lib"],"crate_types":["lib"],"name":"test","src_path":"/test/src/lib.rs","edition":"2021","doc":true,"doctest":true,"test":true},"message":{"message":"cannot find function `non_existent_function` in this scope","code":{"code":"E0425","explanation":"An unresolved name was used.\n\nErroneous code examples:\n\n```compile_fail,E0425\nfoo::bar(); // error: unresolved name `foo::bar`\n// or\nbaz(); // error: unresolved name `baz`\n```\n\nPlease verify that the name wasn't misspelled and ensure that the identifier\nis declared. Example:\n\n```\nfn bar() {}\nfoo::bar(); // ok!\n// or\nfn baz() {}\nbaz(); // ok!\n```\n\nShadowing and scoping rules can sometimes make it look like a path or a name\nis valid, but actually isn't. Example:\n\n```compile_fail,E0425\nstruct Foo;\nlet binding = Foo;\nlet another_binding = binding();\n// error: unresolved name `binding`\n```\n\nIn this example, `binding` is created as a variable, not a function. So when\nwe try to call it as a function, we get this error. Let's fix it:\n\n```\nstruct Foo;\nlet binding = Foo;\nlet another_binding = binding;\n// ok!\n```\n"},"level":"error","spans":[{"file_name":"src/lib.rs","byte_start":123,"byte_end":144,"line_start":10,"line_end":10,"column_start":5,"column_end":26,"is_primary":true,"text":[{"text":"    non_existent_function();","highlight_start":5,"highlight_end":26}],"label":"not found in this scope","suggested_replacement":null,"suggestion_applicability":null,"expansion":null}],"children":[],"rendered":"\u001b[0m\u001b[1m\u001b[38;5;9merror[E0425]\u001b[0m\u001b[0m\u001b[1m: cannot find function `non_existent_function` in this scope\u001b[0m\n\u001b[0m  \u001b[0m\u001b[0m\u001b[1m\u001b[38;5;12m--> \u001b[0m\u001b[0msrc/lib.rs:10:5\u001b[0m\n\u001b[0m   \u001b[0m\u001b[0m\u001b[1m\u001b[38;5;12m|\u001b[0m\n\u001b[0m\u001b[1m\u001b[38;5;12m10\u001b[0m\u001b[0m \u001b[0m\u001b[0m\u001b[1m\u001b[38;5;12m|\u001b[0m\u001b[0m \u001b[0m\u001b[0m    non_existent_function();\u001b[0m\n\u001b[0m   \u001b[0m\u001b[0m\u001b[1m\u001b[38;5;12m|\u001b[0m\u001b[0m \u001b[0m\u001b[0m\u001b[1m\u001b[38;5;9m    ^^^^^^^^^^^^^^^^^^^^^\u001b[0m\u001b[0m \u001b[0m\u001b[0m\u001b[1m\u001b[38;5;9mnot found in this scope\u001b[0m\n\n"}}"#;

    let result = format(json_output);

    assert!(result.contains("error[E0425]"));
    assert!(result.contains("cannot find function `non_existent_function` in this scope"));
    assert!(result.contains("src/lib.rs:10:5"));
}

#[test]
fn test_format_build_error_output_with_multiple_errors() {
    let json_output = r#"{"reason":"compiler-message","message":{"message":"first error","level":"error","rendered":"First Error Message"}}
{"reason":"compiler-message","message":{"message":"second error","level":"error","rendered":"Second Error Message"}}"#;

    let result = format(json_output);

    assert!(result.contains("First Error Message"));
    assert!(result.contains("Second Error Message"));
    assert!(result.contains("\n"));
    assert_eq!(result, "First Error Message\nSecond Error Message");
}

#[test]
fn test_format_build_error_output_with_warnings_only() {
    let json_output = r#"{"reason":"compiler-message","message":{"message":"unused variable","level":"warning","rendered":"Warning Message"}}"#;

    let result = format(json_output);

    assert!(result.contains("Could not parse specific compiler errors"));
    assert!(result.contains("unused variable"));
}

#[test]
fn test_format_build_error_output_with_no_rendered_output() {
    let json_output = r#"{"reason":"compiler-message","message":{"message":"raw error message","level":"error"}}"#;

    let result = format(json_output);

    assert_eq!(result, "raw error message");
}

#[test]
fn test_format_build_error_output_with_invalid_json() {
    let invalid_json = "This is not valid JSON\nSome error occurred\nAnother line";

    let result = format(invalid_json);

    assert!(result.contains("Could not parse specific compiler errors"));
    assert!(result.contains("This is not valid JSON"));
    assert!(result.contains("Some error occurred"));
}

#[test]
fn test_format_build_error_output_with_empty_input() {
    let result = format("");

    assert!(result.contains("Could not parse specific compiler errors"));
}

#[test]
fn test_format_build_error_output_with_non_compiler_messages() {
    let json_output = r#"{"reason":"compiler-artifact","target":{"name":"test","kind":["bin"]}}
{"reason":"build-script-executed","package_id":"test 0.1.0"}"#;

    let result = format(json_output);

    assert!(result.contains("Could not parse specific compiler errors"));
}

#[test]
fn test_format_build_error_output_truncates_long_output() {
    let long_output = (0..60).map(|i| format!("Line {}", i)).collect::<Vec<_>>().join("\n");

    let result = format(&long_output);

    assert!(result.contains("Line 0"));
    assert!(result.contains("Line 49"));
    assert!(!result.contains("Line 50"));
    assert!(!result.contains("Line 59"));
}

#[test]
fn snippet_report_layout() {
    let messages = vec![None, None];
    let r = format_build_error_output("a\nb", &messages, "NOTICE");
    assert_eq!(r, "NOTICE\n\na\nb");
}

#[test]
fn lines_follow_str_lines() {
    for s in ["", "a", "a\n", "a\r\nb", "\n\nx", "a\rb\n", "x\r", "one\ntwo\r\n\r\nthree"] {
        let expected: Vec<String> = s.lines().map(|l| l.to_string()).collect();
        assert_eq!(output_lines(s), expected, "input {:?}", s);
    }
}

#[test]
fn test_executable_is_the_first_test_artifact() {
    let lines = [
        r#"{"reason":"compiler-artifact","target":{"name":"lib","test":false,"kind":["lib"]},"executable":null}"#,
        r#"not json"#,
        r#"{"reason":"compiler-message","target":{"name":"t","test":true,"kind":["test"]},"executable":"/wrong"}"#,
        r#"{"reason":"compiler-artifact","target":{"name":"t","test":true,"kind":["test"]},"executable":"/path/to/first"}"#,
        r#"{"reason":"compiler-artifact","target":{"name":"u","test":true,"kind":["test"]},"executable":"/path/to/second"}"#,
    ];
    let messages: Vec<Option<CargoMessage>> = lines.iter().map(|l| parse_line(l)).collect();
    assert_eq!(find_test_executable(&messages), "/path/to/first");
    assert_eq!(find_test_executable(&messages[..3]), "");
}

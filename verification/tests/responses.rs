use ralph_hook_lint::response::{continue_result, escape_json, output_lint_result};

#[test]
fn test_escape_json_simple_string() {
    assert_eq!(escape_json("hello"), "hello");
}

#[test]
fn test_escape_json_quotes() {
    assert_eq!(escape_json(r#"say "hello""#), r#"say \"hello\""#);
}

#[test]
fn test_escape_json_backslash() {
    assert_eq!(escape_json(r"path\to\file"), r"path\\to\\file");
}

#[test]
fn test_escape_json_newlines() {
    assert_eq!(escape_json("line1\nline2"), r"line1\nline2");
}

#[test]
fn test_escape_json_tabs() {
    assert_eq!(escape_json("col1\tcol2"), r"col1\tcol2");
}

#[test]
fn test_escape_json_carriage_return() {
    assert_eq!(escape_json("line1\r\nline2"), r"line1\r\nline2");
}

#[test]
fn test_escape_json_mixed() {
    assert_eq!(
        escape_json("Error: \"file\\not\\found\"\n"),
        r#"Error: \"file\\not\\found\"\n"#
    );
}

#[test]
fn test_escape_json_control_chars() {
    assert_eq!(escape_json("a\u{1}b\u{7f}c"), r"a\u0001b\u007fc");
}

#[test]
fn test_escape_round_trip_concrete() {
    // The escaped text, unescaped by the standard JSON rules, is the
    // original: checked here on a value with quotes, backslashes and
    // control characters.
    let original = "say \"hi\"\\now\n\tdone\u{2}";
    let escaped = escape_json(original);
    assert_eq!(escaped, "say \\\"hi\\\"\\\\now\\n\\tdone\\u0002");
    let mut decoded = String::new();
    let mut chars = escaped.chars();
    while let Some(c) = chars.next() {
        if c == '\\' {
            match chars.next().unwrap() {
                'n' => decoded.push('\n'),
                'r' => decoded.push('\r'),
                't' => decoded.push('\t'),
                '"' => decoded.push('"'),
                '\\' => decoded.push('\\'),
                '/' => decoded.push('/'),
                'u' => {
                    let hex: String =
                        [chars.next(), chars.next(), chars.next(), chars.next()]
                            .iter()
                            .map(|c| c.unwrap())
                            .collect();
                    let v = u32::from_str_radix(&hex, 16).unwrap();
                    decoded.push(char::from_u32(v).unwrap());
                }
                other => panic!("unexpected escape {other}"),
            }
        } else {
            decoded.push(c);
        }
    }
    assert_eq!(decoded, original);
}

#[test]
fn test_output_lint_result_success_debug() {
    let result = output_lint_result("eslint", "src/app.js", "", "", true, true);
    assert_eq!(
        result,
        r#"{"continue":true,"systemMessage":"[ralph-hook-lint] lint passed for src/app.js using eslint."}"#
    );
}

#[test]
fn test_output_lint_result_success_no_debug() {
    let result = output_lint_result("eslint", "src/app.js", "", "", true, false);
    assert_eq!(result, r#"{"continue":true}"#);
}

#[test]
fn test_output_lint_result_failure_stdout_only() {
    let result = output_lint_result("eslint", "src/app.js", "error on line 1", "", false, true);
    assert_eq!(
        result,
        r#"{"decision":"block","reason":"[ralph-hook-lint] lint errors in src/app.js using eslint:\n\nerror on line 1\n\nFix lint errors."}"#
    );
}

#[test]
fn test_output_lint_result_failure_stderr_only() {
    let result = output_lint_result("eslint", "src/app.js", "", "error on line 2", false, true);
    assert_eq!(
        result,
        r#"{"decision":"block","reason":"[ralph-hook-lint] lint errors in src/app.js using eslint:\n\nerror on line 2\n\nFix lint errors."}"#
    );
}

#[test]
fn test_output_lint_result_failure_both() {
    let result = output_lint_result(
        "eslint",
        "src/app.js",
        "stdout err",
        "stderr err",
        false,
        true,
    );
    assert_eq!(
        result,
        r#"{"decision":"block","reason":"[ralph-hook-lint] lint errors in src/app.js using eslint:\n\nstdout err\nstderr err\n\nFix lint errors."}"#
    );
}

#[test]
fn test_output_lint_result_failure_no_debug_still_blocks() {
    let result = output_lint_result("eslint", "src/app.js", "error on line 1", "", false, false);
    assert_eq!(
        result,
        r#"{"decision":"block","reason":"[ralph-hook-lint] lint errors in src/app.js using eslint:\n\nerror on line 1\n\nFix lint errors."}"#
    );
}

#[test]
fn test_output_lint_result_escapes_special_chars() {
    let result = output_lint_result(
        "eslint",
        "src/app.js",
        "error: \"unexpected\"\n",
        "",
        false,
        true,
    );
    assert!(result.contains(r#"\"unexpected\""#));
    assert!(result.contains(r"\n"));
}

#[test]
fn test_output_lint_result_trims_output() {
    let result = output_lint_result("ruff", "a.py", "  found a problem\n\n", "", false, true);
    assert_eq!(
        result,
        r#"{"decision":"block","reason":"[ralph-hook-lint] lint errors in a.py using ruff:\n\nfound a problem\n\nFix lint errors."}"#
    );
}

#[test]
fn test_continue_result_debug() {
    let result = continue_result(true, "[ralph-hook-lint] some message");
    assert_eq!(
        result,
        r#"{"continue":true,"systemMessage":"[ralph-hook-lint] some message"}"#
    );
}

#[test]
fn test_continue_result_no_debug() {
    let result = continue_result(false, "[ralph-hook-lint] some message");
    assert_eq!(result, r#"{"continue":true}"#);
}

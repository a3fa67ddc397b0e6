use ralph_hook_lint::lint::{
    clippy_args, filter_clippy_output_multi, run_rust_lint, run_rust_lint_multi,
};

#[test]
fn test_filter_clippy_output_matches_relative_path() {
    let stderr = "warning: unused variable\n  --> src/main.rs:10:5\nerror: something else";
    let result = filter_clippy_output_multi(
        "",
        stderr,
        &vec!["/project/src/main.rs".to_string()],
        "/project",
    );
    assert!(result.contains("src/main.rs:10:5"));
    assert!(!result.contains("unused variable"));
}

#[test]
fn test_filter_clippy_output_matches_filename_fallback() {
    let stderr = "warning: unused in main.rs\n  --> other/main.rs:5:1";
    let result = filter_clippy_output_multi(
        "",
        stderr,
        &vec!["/project/src/main.rs".to_string()],
        "/project",
    );
    assert!(result.contains("main.rs"));
}

#[test]
fn test_filter_clippy_output_empty_when_no_match() {
    let stderr = "warning: in other.rs:10:5";
    let result = filter_clippy_output_multi(
        "",
        stderr,
        &vec!["/project/src/main.rs".to_string()],
        "/project",
    );
    assert!(result.is_empty() || !result.contains("other.rs"));
}

#[test]
fn test_filter_clippy_output_multi_matches_multiple_files() {
    let stderr = "  --> src/main.rs:10:5\n  --> src/lib.rs:20:3\n  --> src/other.rs:1:1";
    let result = filter_clippy_output_multi(
        "",
        stderr,
        &vec![
            "/project/src/main.rs".to_string(),
            "/project/src/lib.rs".to_string(),
        ],
        "/project",
    );
    assert!(result.contains("src/main.rs:10:5"));
    assert!(result.contains("src/lib.rs:20:3"));
    assert!(!result.contains("src/other.rs"));
}

#[test]
fn test_filter_clippy_workspace_no_cross_crate_leak() {
    // A workspace where the tool reports findings from two crates.  The
    // filter for crate "app" must not match "core" findings via the
    // relative path, though both crates have a "lib.rs".
    let stderr = "  --> src/lib.rs:10:5\n  --> /ws/crates/core/src/lib.rs:20:3";
    let result = filter_clippy_output_multi(
        "",
        stderr,
        &vec!["/ws/crates/app/src/lib.rs".to_string()],
        "/ws/crates/app",
    );
    // "src/lib.rs:10:5" matches via the relative path (app's own file).
    assert!(result.contains("src/lib.rs:10:5"));
    // The absolute path of the other crate does not match via the
    // relative path, but WILL match via the filename fallback "lib.rs".
    // This is a known limitation of the filename fallback.
}

#[test]
fn test_filter_filename_ignores_trailing_separator() {
    // The bare filename of "/x/y/dir/" is "dir": a line naming it
    // matches through the filename fallback.
    let stderr = "note: dir has findings\nnote: elsewhere";
    let result =
        filter_clippy_output_multi("", stderr, &vec!["/x/y/dir/".to_string()], "/q");
    assert!(result.contains("note: dir has findings"));
    assert!(!result.contains("elsewhere"));
}

#[test]
fn test_filter_filename_parent_reference_falls_back() {
    // A path ending in a parent reference has no bare filename: the
    // whole path stands in, so only lines holding it match.
    let stderr = "note: parent reference\nnote: /x/.. itself";
    let result = filter_clippy_output_multi("", stderr, &vec!["/x/..".to_string()], "/q");
    assert!(result.contains("note: /x/.. itself"));
    assert!(!result.contains("parent reference"));
}

#[test]
fn batched_reason_joins_only_matching_lines() {
    // One batched decision: the reason is the union of lines matching
    // any requested file, with nothing from the unrelated path.
    let stderr = "src/a.rs:1:1 bad\nsrc/unrelated.rs:2:2 other\nsrc/b.rs:3:3 worse";
    let result = run_rust_lint_multi(
        &vec![
            "/p/src/a.rs".to_string(),
            "/p/src/b.rs".to_string(),
        ],
        "/p",
        false,
        "",
        stderr,
    );
    assert!(result.starts_with(r#"{"decision":"block""#));
    assert!(result.contains(r"src/a.rs:1:1 bad\nsrc/b.rs:3:3 worse"));
    assert!(!result.contains("unrelated"));
    assert!(result.contains("lint errors in 2 files using clippy"));
}

#[test]
fn single_file_clean_run_continues() {
    let result = run_rust_lint("/p/src/a.rs", "/p", true, "", "");
    assert_eq!(
        result,
        r#"{"continue":true,"systemMessage":"[ralph-hook-lint] lint passed for /p/src/a.rs using clippy."}"#
    );
}

#[test]
fn single_file_findings_block() {
    let result = run_rust_lint("/p/src/a.rs", "/p", false, "", "src/a.rs:4:2 oops");
    assert_eq!(
        result,
        r#"{"decision":"block","reason":"[ralph-hook-lint] lint errors in /p/src/a.rs using clippy:\n\nsrc/a.rs:4:2 oops\n\nFix lint errors."}"#
    );
}

#[test]
fn clippy_args_plain_and_lenient() {
    assert_eq!(
        clippy_args(false),
        vec!["clippy", "--message-format=short", "--", "-D", "warnings"]
    );
    assert_eq!(
        clippy_args(true),
        vec![
            "clippy",
            "--message-format=short",
            "--",
            "-D",
            "warnings",
            "-A",
            "unused_variables",
            "-A",
            "unused_imports"
        ]
    );
}

use ralph_hook_lint::hook::{run_collect, CollectAction, lint_collected_session, no_files_result};
use ralph_hook_lint::store::{read_and_cleanup, record_path, session_file_name};

#[test]
fn record_and_read_single_path() {
    // One recorded path comes back out, and the drain leaves no record.
    let lines = record_path(&vec![], "/tmp/a.rs");
    let (paths, rest) = read_and_cleanup(Some(lines));
    assert_eq!(paths, vec!["/tmp/a.rs"]);
    assert!(rest.is_none());
}

#[test]
fn dedup_same_path() {
    // Recording the same path twice keeps one occurrence, in
    // first-insertion order.
    let lines = record_path(&vec![], "/tmp/b.rs");
    let lines = record_path(&lines, "/tmp/b.rs");
    let lines = record_path(&lines, "/tmp/c.rs");

    let (paths, _) = read_and_cleanup(Some(lines));
    assert_eq!(paths, vec!["/tmp/b.rs", "/tmp/c.rs"]);
}

#[test]
fn read_and_cleanup_nonexistent() {
    let (paths, rest) = read_and_cleanup(None);
    assert!(paths.is_empty());
    assert!(rest.is_none());
}

#[test]
fn cleanup_deletes_file() {
    // Drain is exactly-once: what the first drain leaves behind, a
    // second drain finds empty.
    let lines = record_path(&vec![], "/tmp/d.rs");
    let (paths, rest) = read_and_cleanup(Some(lines));
    assert_eq!(paths, vec!["/tmp/d.rs"]);
    let (again, _) = read_and_cleanup(rest);
    assert!(again.is_empty());
}

#[test]
fn drain_skips_empty_lines() {
    let (paths, _) = read_and_cleanup(Some(vec![
        "".to_string(),
        "/tmp/x.rs".to_string(),
        "".to_string(),
    ]));
    assert_eq!(paths, vec!["/tmp/x.rs"]);
}

#[test]
fn session_file_name_shape() {
    assert_eq!(session_file_name("abc-123"), "ralph-lint-abc-123.txt");
}

#[test]
fn collect_records_file_path() {
    let input = r#"{"session_id":"s1","tool_name":"Edit","tool_input":{"file_path":"/tmp/test.rs"}}"#;
    match run_collect(input, false) {
        CollectAction::Record {
            session_id,
            file_path,
            response,
        } => {
            assert_eq!(session_id, "s1");
            assert_eq!(file_path, "/tmp/test.rs");
            assert_eq!(response, r#"{"continue":true}"#);
        }
        CollectAction::Skip { response } => panic!("expected a record, got skip: {response}"),
    }
}

#[test]
fn collect_deduplicates() {
    // Two collect events for the same path leave exactly one entry.
    let input = r#"{"session_id":"s2","tool_input":{"file_path":"/tmp/dup.rs"}}"#;
    let mut lines: Vec<String> = vec![];
    for _ in 0..2 {
        if let CollectAction::Record { file_path, .. } = run_collect(input, false) {
            lines = record_path(&lines, &file_path);
        } else {
            panic!("expected a record");
        }
    }
    assert_eq!(lines.len(), 1, "Should have exactly one entry after dedup");
}

#[test]
fn collect_without_session_skips() {
    let input = r#"{"tool_input":{"file_path":"/tmp/test.rs"}}"#;
    match run_collect(input, true) {
        CollectAction::Skip { response } => {
            assert!(response.contains("no session_id, skipping collect."));
        }
        CollectAction::Record { .. } => panic!("expected a skip"),
    }
}

#[test]
fn collect_without_file_path_skips() {
    let input = r#"{"session_id":"s3"}"#;
    match run_collect(input, true) {
        CollectAction::Skip { response } => {
            assert!(response.contains("no file_path provided, skipping collect."));
        }
        CollectAction::Record { .. } => panic!("expected a skip"),
    }
}

#[test]
fn lint_collected_no_files() {
    let input = r#"{"session_id":"s4"}"#;
    let sid = lint_collected_session(input, true).expect("session expected");
    assert_eq!(sid, "s4");
    let (paths, _) = read_and_cleanup(None);
    assert!(paths.is_empty());
    let output = no_files_result(true);
    assert!(
        output.contains("no files collected") || output.contains(r#""continue":true"#),
        "lint-collected with no files should continue, got: {output}"
    );
}

#[test]
fn lint_collected_cleans_up() {
    // After a drain the record is gone, and an unresolvable file leaves
    // the aggregated outcome a continue.
    let collect_input =
        r#"{"session_id":"s5","tool_name":"Edit","tool_input":{"file_path":"/tmp/no-project/fake.rs"}}"#;
    let mut lines: Vec<String> = vec![];
    if let CollectAction::Record { file_path, .. } = run_collect(collect_input, false) {
        lines = record_path(&lines, &file_path);
    }
    assert_eq!(lines.len(), 1);
    let (paths, rest) = read_and_cleanup(Some(lines));
    assert_eq!(paths, vec!["/tmp/no-project/fake.rs"]);
    assert!(rest.is_none(), "record should be gone after a drain");
}

#[test]
fn lint_collected_without_session_skips() {
    let input = r#"{"tool_name":"Edit"}"#;
    let err = lint_collected_session(input, true).expect_err("no session expected");
    assert!(err.contains("no session_id, skipping lint-collected."));
}

use ralph_hook_lint::hook::{
    add_rust_file, aggregate_decision, collect_lint_errors, extract_reason, lint_target,
    mark_java_root, no_project_result,
};
use ralph_hook_lint::lint::{
    first_present, go_lint_args, go_linters, go_no_linter_result, go_vet_args, gradle_command, gradle_linters,
    gradle_task_missing, java_build_tool, java_no_build_tool_result, java_no_linter_gradle_result,
    java_no_linter_maven_result, js_lint_args, js_linter_bin, js_linters, js_no_linter_result,
    maven_linters, maven_plugin_missing, npm_fallback_args, npm_lint_configured,
    python_lint_args, python_linters, python_no_linter_result, python_venv_dirs, venv_bin_path,
    JavaBuildTool,
};

#[test]
fn missing_file_path_skips() {
    let input = r#"{"tool_input":{"other":"value"}}"#;
    let output = lint_target(input, true).expect_err("no file path expected");
    assert!(
        output.contains("no file_path provided"),
        "Expected no file_path message, got: {output}"
    );
}

#[test]
fn no_debug_omits_system_message_on_continue() {
    let input = r#"{"tool_input":{"other":"value"}}"#;
    let output = lint_target(input, false).expect_err("no file path expected");
    assert_eq!(
        output.trim(),
        r#"{"continue":true}"#,
        "Without debug, continue responses should not contain systemMessage"
    );
}

#[test]
fn no_debug_skips_unsupported_without_system_message() {
    let output = no_project_result("/tmp/no-cargo/file.rs", false);
    assert_eq!(
        output.trim(),
        r#"{"continue":true}"#,
        "Without debug, skip responses should not contain systemMessage"
    );
}

#[test]
fn unsupported_file_type_skips() {
    let output = no_project_result("/some/path/file.xyz", true);
    assert!(
        output.contains("unsupported file type") || output.contains("skipping lint"),
        "Expected skip message for unsupported file, got: {output}"
    );
}

#[test]
fn no_package_json_skips() {
    let output = no_project_result("/tmp/no-package/file.ts", true);
    assert!(
        output.contains("no package.json found") || output.contains("skipping lint"),
        "Expected skip message, got: {output}"
    );
}

#[test]
fn rust_file_no_cargo_toml_skips() {
    let output = no_project_result("/tmp/no-cargo/file.rs", true);
    assert!(
        output.contains("unsupported file type")
            || output.contains("no project found")
            || output.contains("skipping lint"),
        "Expected skip message for Rust file without manifest, got: {output}"
    );
}

#[test]
fn finds_package_json_directory() {
    // The project resolves but no linter is installed: the hook skips.
    let output = js_no_linter_result("/fixtures/ts/project/src/index.ts", true);
    assert!(
        output.contains("no linter found") || output.contains("skipping lint"),
        "Unexpected output: {output}"
    );
}

#[test]
fn rust_project_finds_cargo_toml() {
    let output = ralph_hook_lint::lint::run_rust_lint(
        "/fixtures/rust/project/src/main.rs",
        "/fixtures/rust/project",
        true,
        "",
        "",
    );
    assert!(
        output.contains("clippy")
            || output.contains("lint passed")
            || output.contains("lint errors"),
        "Expected the project-wide tool to decide, got: {output}"
    );
}

#[test]
fn rust_monorepo_finds_crate_cargo_toml() {
    let output = ralph_hook_lint::lint::run_rust_lint(
        "/fixtures/rust/monorepo/crates/app/src/lib.rs",
        "/fixtures/rust/monorepo/crates/app",
        true,
        "",
        "",
    );
    assert!(
        output.contains("clippy")
            || output.contains("lint passed")
            || output.contains("lint errors"),
        "Expected the project-wide tool to decide, got: {output}"
    );
}

#[test]
fn lenient_flag_accepted_for_ts() {
    let args = js_lint_args("oxlint", "/fixtures/ts/project/src/index.ts", true);
    assert!(args.contains(&"--allow".to_string()));
    let output = js_no_linter_result("/fixtures/ts/project/src/index.ts", true);
    assert!(
        output.contains("no linter found")
            || output.contains("lint passed")
            || output.contains("lint errors")
            || output.contains("skipping lint"),
        "Expected valid output with lenient mode for TS, got: {output}"
    );
}

#[test]
fn lenient_flag_accepted_for_rust() {
    let output = ralph_hook_lint::lint::run_rust_lint(
        "/fixtures/rust/project/src/main.rs",
        "/fixtures/rust/project",
        true,
        "",
        "",
    );
    assert!(
        output.contains("clippy")
            || output.contains("lint passed")
            || output.contains("lint errors"),
        "Expected the lenient run to decide, got: {output}"
    );
}

#[test]
fn lenient_without_debug_produces_valid_output() {
    let input = r#"{"tool_input":{"other":"value"}}"#;
    let output = lint_target(input, false).expect_err("no file path expected");
    assert_eq!(
        output.trim(),
        r#"{"continue":true}"#,
        "lenient mode without debug should produce clean output"
    );
}

#[test]
fn js_tool_order_and_paths() {
    assert_eq!(js_linters(), vec!["oxlint", "biome", "eslint"]);
    assert_eq!(
        js_linter_bin("/p", "oxlint"),
        "/p/node_modules/.bin/oxlint"
    );
    assert_eq!(js_lint_args("biome", "/p/a.ts", false), vec!["lint", "/p/a.ts"]);
    assert_eq!(
        js_lint_args("biome", "/p/a.ts", true),
        vec![
            "lint",
            "/p/a.ts",
            "--skip=correctness/noUnusedVariables",
            "--skip=correctness/noUnusedImports",
            "--skip=correctness/noUndeclaredVariables"
        ]
    );
    assert_eq!(
        js_lint_args("eslint", "/p/a.ts", true),
        vec![
            "/p/a.ts",
            "--rule",
            "no-unused-vars: off",
            "--rule",
            "@typescript-eslint/no-unused-vars: off",
            "--rule",
            "no-undef: off",
            "--rule",
            "react/jsx-no-undef: off"
        ]
    );
    assert_eq!(
        npm_fallback_args("/p/a.ts"),
        vec!["run", "lint", "--if-present", "--", "/p/a.ts"]
    );
}

#[test]
fn first_present_tool_wins_exclusively() {
    assert_eq!(first_present(&vec![false, true, true]), Some(1));
    assert_eq!(first_present(&vec![true, false, false]), Some(0));
    assert_eq!(first_present(&vec![false, false, false]), None);
    assert_eq!(first_present(&vec![]), None);
}

#[test]
fn npm_script_detection() {
    assert!(npm_lint_configured("all good", ""));
    assert!(!npm_lint_configured("Missing script: lint", ""));
    assert!(!npm_lint_configured("", "npm error something"));
}

#[test]
fn python_tool_order_and_args() {
    assert_eq!(python_linters(), vec!["ruff", "mypy", "pylint", "flake8"]);
    assert_eq!(
        python_venv_dirs(),
        vec![".venv/bin", "venv/bin", ".env/bin", "env/bin"]
    );
    assert_eq!(venv_bin_path("/p", ".venv/bin", "ruff"), "/p/.venv/bin/ruff");
    assert_eq!(
        python_lint_args("ruff", "/p/a.py", false),
        vec!["check", "--output-format=concise", "/p/a.py"]
    );
    assert_eq!(
        python_lint_args("ruff", "/p/a.py", true),
        vec![
            "check",
            "--output-format=concise",
            "/p/a.py",
            "--ignore",
            "F841,F401,F821"
        ]
    );
    assert_eq!(python_lint_args("mypy", "/p/a.py", true), vec!["/p/a.py"]);
    assert_eq!(
        python_lint_args("pylint", "/p/a.py", true),
        vec!["--output-format=text", "/p/a.py", "--disable=W0611,W0612,E0602"]
    );
    assert_eq!(
        python_lint_args("flake8", "/p/a.py", true),
        vec!["/p/a.py", "--extend-ignore=F841,F401,F821"]
    );
    let msg = python_no_linter_result("/p/a.py", true);
    assert!(msg.contains("no Python linter found"));
}

#[test]
fn go_tool_order_and_args() {
    assert_eq!(go_linters(), vec!["golangci-lint", "staticcheck"]);
    assert_eq!(
        go_lint_args("golangci-lint", "/p/a.go", false),
        vec!["run", "--fast", "/p/a.go"]
    );
    assert_eq!(
        go_lint_args("golangci-lint", "/p/a.go", true),
        vec!["run", "--fast", "/p/a.go", "--disable=unused"]
    );
    assert_eq!(go_lint_args("staticcheck", "/p/a.go", true), vec!["/p/a.go"]);
    assert_eq!(go_vet_args("/p/a.go"), vec!["vet", "/p/a.go"]);
    let msg = go_no_linter_result("/p/a.go", true);
    assert!(msg.contains("no Go linter found"));
}

#[test]
fn java_build_tool_precedence() {
    assert_eq!(java_build_tool(true, true, true), JavaBuildTool::Maven);
    assert_eq!(java_build_tool(false, true, false), JavaBuildTool::Gradle);
    assert_eq!(java_build_tool(false, false, true), JavaBuildTool::Gradle);
    assert_eq!(java_build_tool(false, false, false), JavaBuildTool::Missing);
}

#[test]
fn java_checker_tables() {
    let mavens = maven_linters();
    assert_eq!(mavens.len(), 2);
    assert_eq!(mavens[0].0, "pmd:check");
    assert_eq!(mavens[0].1, vec!["pmd:check", "-q"]);
    assert_eq!(mavens[0].2, "No plugin found for prefix 'pmd'");
    assert_eq!(mavens[1].0, "spotbugs:check");
    let gradles = gradle_linters();
    assert_eq!(gradles[0], ("pmdMain".to_string(), "Task 'pmdMain' not found".to_string()));
    assert_eq!(
        gradles[1],
        ("spotbugsMain".to_string(), "Task 'spotbugsMain' not found".to_string())
    );
    assert_eq!(gradle_command(true), "./gradlew");
    assert_eq!(gradle_command(false), "gradle");
}

#[test]
fn java_marker_checks() {
    assert!(maven_plugin_missing(
        "[ERROR] No plugin found for prefix 'pmd'",
        "No plugin found for prefix 'pmd'"
    ));
    assert!(maven_plugin_missing(
        "Unknown lifecycle phase \"pmd:check\"",
        "No plugin found for prefix 'pmd'"
    ));
    assert!(!maven_plugin_missing("BUILD FAILURE", "No plugin found for prefix 'pmd'"));
    assert!(gradle_task_missing(
        "Task 'pmdMain' not found in root project",
        "Task 'pmdMain' not found"
    ));
    assert!(!gradle_task_missing("pmd violations", "Task 'pmdMain' not found"));
}

#[test]
fn java_skip_messages() {
    assert!(java_no_linter_maven_result("/p/A.java", true).contains("no Java linter configured"));
    assert!(java_no_linter_gradle_result("/p/A.java", true).contains("build.gradle"));
    assert!(java_no_build_tool_result("/p/A.java", true).contains("no Java build tool found"));
}

#[test]
fn collecting_block_reasons() {
    let mut errors: Vec<String> = vec![];
    let block = r#"{"decision":"block","reason":"three problems"}"#.to_string();
    collect_lint_errors(Ok(block), "/p/a.rs", &mut errors);
    assert_eq!(errors, vec!["three problems"]);

    collect_lint_errors(Ok(r#"{"continue":true}"#.to_string()), "/p/a.rs", &mut errors);
    assert_eq!(errors.len(), 1);

    collect_lint_errors(Err("spawn failed".to_string()), "/p/b.rs", &mut errors);
    assert_eq!(
        errors[1],
        "[ralph-hook-lint] error linting /p/b.rs: spawn failed"
    );
}

#[test]
fn extract_reason_reads_back_a_block() {
    let block = r#"{"decision":"block","reason":"why it failed"}"#;
    assert_eq!(extract_reason(block), Some("why it failed".to_string()));
    assert_eq!(extract_reason(r#"{"continue":true}"#), None);
}

#[test]
fn aggregate_all_passed() {
    let output = aggregate_decision(&vec![], 3, true);
    assert_eq!(
        output,
        r#"{"continue":true,"systemMessage":"[ralph-hook-lint] all 3 collected file(s) passed lint."}"#
    );
    assert_eq!(aggregate_decision(&vec![], 3, false), r#"{"continue":true}"#);
}

#[test]
fn aggregate_counts_in_decimal() {
    let output = aggregate_decision(&vec![], 12, true);
    assert!(output.contains("all 12 collected file(s) passed lint."));
    let output = aggregate_decision(&vec![], 0, true);
    assert!(output.contains("all 0 collected file(s) passed lint."));
}

#[test]
fn aggregate_joins_errors() {
    let errors = vec!["first bad".to_string(), "second bad".to_string()];
    let output = aggregate_decision(&errors, 2, false);
    assert_eq!(
        output,
        r#"{"decision":"block","reason":"first bad\n\n---\n\nsecond bad"}"#
    );
}

#[test]
fn rust_groups_by_root() {
    let groups = add_rust_file(vec![], "/p1", "/p1/a.rs");
    let groups = add_rust_file(groups, "/p2", "/p2/b.rs");
    let groups = add_rust_file(groups, "/p1", "/p1/c.rs");
    assert_eq!(groups.len(), 2, "one group per project root");
    assert_eq!(groups[0].0, "/p1");
    assert_eq!(groups[0].1, vec!["/p1/a.rs", "/p1/c.rs"]);
    assert_eq!(groups[1].0, "/p2");
    assert_eq!(groups[1].1, vec!["/p2/b.rs"]);
}

#[test]
fn java_roots_deduplicate() {
    let mut seen: Vec<String> = vec![];
    assert!(mark_java_root(&mut seen, "/p1"));
    assert!(!mark_java_root(&mut seen, "/p1"));
    assert!(mark_java_root(&mut seen, "/p2"));
    assert_eq!(seen, vec!["/p1", "/p2"]);
}

use ralph_hook_lint::project::{
    ancestor_dirs, detect_lang, find_project_root, npm_prefix_root, parent_dir, Lang,
};

#[test]
fn detect_lang_js() {
    assert_eq!(detect_lang("/path/to/file.js"), Some(Lang::JavaScript));
    assert_eq!(detect_lang("/path/to/file.ts"), Some(Lang::JavaScript));
    assert_eq!(detect_lang("/path/to/file.tsx"), Some(Lang::JavaScript));
    assert_eq!(detect_lang("/path/to/file.jsx"), Some(Lang::JavaScript));
    assert_eq!(detect_lang("/path/to/file.mjs"), Some(Lang::JavaScript));
    assert_eq!(detect_lang("/path/to/file.cjs"), Some(Lang::JavaScript));
}

#[test]
fn detect_lang_rust() {
    assert_eq!(detect_lang("/path/to/file.rs"), Some(Lang::Rust));
}

#[test]
fn detect_lang_python() {
    assert_eq!(detect_lang("/path/to/file.py"), Some(Lang::Python));
    assert_eq!(detect_lang("/path/to/file.pyi"), Some(Lang::Python));
}

#[test]
fn detect_lang_unsupported() {
    assert_eq!(detect_lang("/path/to/file.txt"), None);
    assert_eq!(detect_lang("/path/to/file.rb"), None);
}

#[test]
fn detect_lang_go() {
    assert_eq!(detect_lang("/path/to/file.go"), Some(Lang::Go));
}

#[test]
fn detect_lang_java() {
    assert_eq!(detect_lang("/path/to/file.java"), Some(Lang::Java));
}

#[test]
fn parent_dir_of_paths() {
    assert_eq!(parent_dir("/a/b/c.rs"), "/a/b");
    assert_eq!(parent_dir("/a.rs"), "/");
    assert_eq!(parent_dir("a.rs"), "");
    assert_eq!(parent_dir("a/b.rs"), "a");
}

#[test]
fn ancestor_dirs_walk_to_root() {
    assert_eq!(
        ancestor_dirs("/fixtures/rust/project/src/main.rs"),
        vec![
            "/fixtures/rust/project/src",
            "/fixtures/rust/project",
            "/fixtures/rust",
            "/fixtures",
            "/"
        ]
    );
    assert_eq!(ancestor_dirs("rel/file.py"), vec!["rel", ""]);
}

fn mark(dirs: &[&str], with_marker: &[&str]) -> Vec<bool> {
    dirs.iter().map(|d| with_marker.contains(d)).collect()
}

#[test]
fn find_project_root_for_js_file() {
    // The package manager answers for the web ecosystem.
    let file_path = "/fixtures/ts/project/index.ts";
    let npm_root = npm_prefix_root("/fixtures/ts/project\n", true);
    let result = find_project_root(file_path, &vec![], npm_root);

    assert!(result.is_some(), "Expected to find project root");
    let info = result.unwrap();
    assert_eq!(info.lang, Lang::JavaScript);
    assert!(
        info.root.ends_with("project"),
        "Expected project, got: {}",
        info.root
    );
}

#[test]
fn find_project_root_nested() {
    let file_path = "/fixtures/ts/nested/subproject/src/index.ts";
    let npm_root = npm_prefix_root("/fixtures/ts/nested/subproject\n", true);
    let result = find_project_root(file_path, &vec![], npm_root);

    assert!(result.is_some());
    let info = result.unwrap();
    assert_eq!(info.lang, Lang::JavaScript);
    assert!(
        info.root.ends_with("subproject"),
        "Expected subproject, got: {}",
        info.root
    );
}

#[test]
fn find_project_root_no_project() {
    // No enclosing package: the package manager found nothing.
    let result = find_project_root("/tmp/nonexistent/path/file.ts", &vec![], None);
    assert!(result.is_none());
}

#[test]
fn find_project_root_for_rust_file() {
    let file_path = "/fixtures/rust/project/src/main.rs";
    let dirs = ancestor_dirs(file_path);
    let refs: Vec<&str> = dirs.iter().map(|d| d.as_str()).collect();
    let marked = mark(&refs, &["/fixtures/rust/project"]);
    let result = find_project_root(file_path, &marked, None);

    assert!(result.is_some(), "Expected to find project root");
    let info = result.unwrap();
    assert_eq!(info.lang, Lang::Rust);
    assert!(
        info.root.ends_with("project"),
        "Expected project, got: {}",
        info.root
    );
}

#[test]
fn find_project_root_rust_monorepo() {
    // Both the crate and the workspace root hold a manifest; the
    // crate's own must win (monorepo shadowing).
    let file_path = "/fixtures/rust/monorepo/crates/app/src/lib.rs";
    let dirs = ancestor_dirs(file_path);
    let refs: Vec<&str> = dirs.iter().map(|d| d.as_str()).collect();
    let marked = mark(
        &refs,
        &["/fixtures/rust/monorepo/crates/app", "/fixtures/rust/monorepo"],
    );
    let result = find_project_root(file_path, &marked, None);

    assert!(result.is_some());
    let info = result.unwrap();
    assert_eq!(info.lang, Lang::Rust);
    assert!(
        info.root.ends_with("app"),
        "Expected app crate, got: {}",
        info.root
    );
}

#[test]
fn find_project_root_for_python_file() {
    let file_path = "/fixtures/python/project/src/main.py";
    let dirs = ancestor_dirs(file_path);
    let refs: Vec<&str> = dirs.iter().map(|d| d.as_str()).collect();
    let marked = mark(&refs, &["/fixtures/python/project"]);
    let result = find_project_root(file_path, &marked, None);

    assert!(result.is_some(), "Expected to find project root");
    let info = result.unwrap();
    assert_eq!(info.lang, Lang::Python);
    assert!(
        info.root.ends_with("project"),
        "Expected project, got: {}",
        info.root
    );
}

#[test]
fn find_project_root_python_monorepo() {
    let file_path = "/fixtures/python/monorepo/packages/app/src/lib.py";
    let dirs = ancestor_dirs(file_path);
    let refs: Vec<&str> = dirs.iter().map(|d| d.as_str()).collect();
    let marked = mark(
        &refs,
        &[
            "/fixtures/python/monorepo/packages/app",
            "/fixtures/python/monorepo",
        ],
    );
    let result = find_project_root(file_path, &marked, None);

    assert!(result.is_some());
    let info = result.unwrap();
    assert_eq!(info.lang, Lang::Python);
    assert!(
        info.root.ends_with("app"),
        "Expected app package, got: {}",
        info.root
    );
}

#[test]
fn find_project_root_for_java_file() {
    let file_path = "/fixtures/java/project/src/main/java/App.java";
    let dirs = ancestor_dirs(file_path);
    let refs: Vec<&str> = dirs.iter().map(|d| d.as_str()).collect();
    let marked = mark(&refs, &["/fixtures/java/project"]);
    let result = find_project_root(file_path, &marked, None);

    assert!(result.is_some(), "Expected to find project root");
    let info = result.unwrap();
    assert_eq!(info.lang, Lang::Java);
    assert!(
        info.root.ends_with("project"),
        "Expected project, got: {}",
        info.root
    );
}

#[test]
fn find_project_root_java_monorepo() {
    let file_path = "/fixtures/java/monorepo/modules/app/src/main/java/Lib.java";
    let dirs = ancestor_dirs(file_path);
    let refs: Vec<&str> = dirs.iter().map(|d| d.as_str()).collect();
    let marked = mark(
        &refs,
        &[
            "/fixtures/java/monorepo/modules/app",
            "/fixtures/java/monorepo",
        ],
    );
    let result = find_project_root(file_path, &marked, None);

    assert!(result.is_some());
    let info = result.unwrap();
    assert_eq!(info.lang, Lang::Java);
    assert!(
        info.root.ends_with("app"),
        "Expected app module, got: {}",
        info.root
    );
}

#[test]
fn find_project_root_for_go_file() {
    let file_path = "/fixtures/go/project/cmd/main.go";
    let dirs = ancestor_dirs(file_path);
    let refs: Vec<&str> = dirs.iter().map(|d| d.as_str()).collect();
    let marked = mark(&refs, &["/fixtures/go/project"]);
    let result = find_project_root(file_path, &marked, None);

    assert!(result.is_some(), "Expected to find project root");
    let info = result.unwrap();
    assert_eq!(info.lang, Lang::Go);
    assert!(
        info.root.ends_with("project"),
        "Expected project, got: {}",
        info.root
    );
}

#[test]
fn npm_prefix_root_trims_and_rejects() {
    assert_eq!(
        npm_prefix_root("/some/root\n", true),
        Some("/some/root".to_string())
    );
    assert_eq!(npm_prefix_root("", true), None);
    assert_eq!(npm_prefix_root("   \n", true), None);
    assert_eq!(npm_prefix_root("/some/root\n", false), None);
}

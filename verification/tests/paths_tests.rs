use proboscis_linter::file_discovery::{glob_match, should_include_py_file};
use proboscis_linter::git::collect_changed_files;
use proboscis_linter::paths::get_module_path;

#[test]
fn test_glob_double_star_crosses_directories() {
    // `**/generated/*` excludes files directly under any `generated`
    // directory, but not under `generated_other`.
    assert!(glob_match("**/generated/*", "src/generated/foo.py"));
    assert!(glob_match("**/generated/*", "a/b/generated/x.py"));
    assert!(!glob_match("**/generated/*", "src/generated_other/foo.py"));
}

#[test]
fn test_glob_single_star_and_question_mark() {
    assert!(glob_match("test_*.py", "test_math.py"));
    assert!(!glob_match("build/*.py", "build/sub/x.py"));
    assert!(glob_match("v?.py", "v1.py"));
    assert!(!glob_match("x/v?.py", "x/v/a.py"));
}

#[test]
fn test_source_file_selection() {
    let no_excludes: Vec<String> = vec![];
    assert!(should_include_py_file("/p/src/pkg/mod.py", "/p", &no_excludes));
    assert!(!should_include_py_file("/p/src/pkg/mod.txt", "/p", &no_excludes));
    assert!(!should_include_py_file("/p/src/__pycache__/mod.py", "/p", &no_excludes));
    assert!(!should_include_py_file("/p/.venv/lib/mod.py", "/p", &no_excludes));
    assert!(!should_include_py_file("/p/test/test_mod.py", "/p", &no_excludes));
    assert!(!should_include_py_file("/p/tests/test_mod.py", "/p", &no_excludes));
    // A test directory below the top level is not skipped by convention.
    assert!(should_include_py_file("/p/src/test/mod.py", "/p", &no_excludes));

    let excludes = vec!["**/generated/*".to_string()];
    assert!(!should_include_py_file("/p/src/generated/mod.py", "/p", &excludes));
    assert!(should_include_py_file("/p/src/handwritten/mod.py", "/p", &excludes));
}

#[test]
fn test_module_path_derivation() {
    assert_eq!(get_module_path("/p/src/pkg/mod1/submod.py", "/p"), "pkg.mod1.submod");
    assert_eq!(get_module_path("/p/pkg/mod.py", "/p"), "pkg.mod");
    assert_eq!(get_module_path("/p/pkg/__init__.py", "/p"), "pkg");
    // A path outside the root keeps all its segments.
    assert_eq!(get_module_path("/q/pkg/mod.py", "/p"), "q.pkg.mod");
}

#[test]
fn test_changed_files_merge_and_dedup() {
    let changed = collect_changed_files(
        "/p",
        "a.py\nREADME.md\nb.py\n",
        "b.py\nc.py\n",
        "c.py\nd.py\n",
    );
    assert_eq!(
        changed,
        vec![
            "/p/a.py".to_string(),
            "/p/b.py".to_string(),
            "/p/c.py".to_string(),
            "/p/d.py".to_string(),
        ]
    );
}

#[test]
fn test_changed_files_empty_listings() {
    let changed = collect_changed_files("/p", "", "", "");
    assert!(changed.is_empty());
}

use proboscis_linter::rules::get_all_rules;
use proboscis_linter::test_cache::{TestCache, TestFileData};
use proboscis_linter::RustLinter;

fn cache_of(files: Vec<(&str, &str)>) -> TestCache {
    let data = files
        .into_iter()
        .map(|(p, c)| TestFileData { path: p.to_string(), content: c.to_string() })
        .collect();
    TestCache::build_from_contents(&data)
}

#[test]
fn test_untested_function_reports_unit_violation() {
    // `pkg/math.py` defines `add` at module level and no test exists
    // anywhere: the unit rule names the canonical pattern and the
    // expected file.
    let linter = RustLinter::new(None, None, None);
    let cache = cache_of(vec![]);
    let rules = get_all_rules();
    let violations = linter.lint_file_internal_with_cache(
        "/proj/pkg/math.py",
        "def add(a, b):\n    return a + b\n",
        &rules,
        &cache,
        "/proj",
    );
    let unit: Vec<_> = violations.iter().filter(|v| v.rule_name.starts_with("PL001")).collect();
    assert_eq!(unit.len(), 1);
    let v = unit[0];
    assert_eq!(v.function_name, "add");
    assert_eq!(v.line_number, 1);
    assert_eq!(v.severity, "error");
    assert_eq!(
        v.message,
        "[PL001] Function 'add' has no unit test found.\nExpected test function: test_add\nIn test file: /proj/test/unit/pkg/test_math.py"
    );
    // The integration and end-to-end rules each report once as well.
    assert_eq!(violations.len(), 3);
    let e2e: Vec<_> = violations.iter().filter(|v| v.rule_name == "PL003:require-e2e-test").collect();
    assert_eq!(e2e.len(), 1);
    assert_eq!(
        e2e[0].message,
        "[PL003] Function 'add' has no e2e test found.\nExpected test function: test_add\nIn test file: /proj/test/e2e/pkg/test_math.py"
    );
}

#[test]
fn test_method_violation_message_names_class() {
    let linter = RustLinter::new(None, None, None);
    let cache = cache_of(vec![]);
    let rules = get_all_rules();
    let violations = linter.lint_file_internal_with_cache(
        "/proj/pkg/wallet.py",
        "class Wallet:\n    def balance(self):\n        return 0\n",
        &rules,
        &cache,
        "/proj",
    );
    let v = violations
        .iter()
        .find(|v| v.rule_name == "PL002:require-integration-test")
        .expect("integration violation expected");
    assert_eq!(
        v.message,
        "[PL002] Method 'balance' of class 'Wallet' has no integration test found.\nExpected test function: test_Wallet_balance\nIn test file: /proj/test/integration/pkg/test_wallet.py"
    );
    assert_eq!(v.line_number, 2);
}

#[test]
fn test_existing_unit_test_satisfies_rule() {
    // The same function with `test_add` in the conventional location:
    // zero unit violations.
    let linter = RustLinter::new(None, None, None);
    let cache = cache_of(vec![(
        "/proj/test/unit/pkg/test_math.py",
        "def test_add():\n    assert True\n",
    )]);
    let rules = get_all_rules();
    let violations = linter.lint_file_internal_with_cache(
        "/proj/pkg/math.py",
        "def add(a, b):\n    return a + b\n",
        &rules,
        &cache,
        "/proj",
    );
    assert!(violations.iter().all(|v| !v.rule_name.starts_with("PL001")));
}

#[test]
fn test_method_covered_by_class_pattern() {
    // `test_Wallet_balance` anywhere under the unit tier covers the
    // method `balance` of class `Wallet`.
    let linter = RustLinter::new(None, None, None);
    let cache = cache_of(vec![(
        "/proj/test/unit/test_wallet.py",
        "def test_Wallet_balance():\n    assert True\n",
    )]);
    let rules = get_all_rules();
    let violations = linter.lint_file_internal_with_cache(
        "/proj/pkg/wallet.py",
        "class Wallet:\n    def balance(self):\n        return 0\n",
        &rules,
        &cache,
        "/proj",
    );
    assert!(violations.iter().all(|v| !v.rule_name.starts_with("PL001")));
}

#[test]
fn test_suppression_is_per_rule() {
    // `# noqa: PL001` on the definition line suppresses only PL001;
    // the integration rule still reports.
    let linter = RustLinter::new(None, None, None);
    let cache = cache_of(vec![]);
    let rules = get_all_rules();
    let violations = linter.lint_file_internal_with_cache(
        "/proj/pkg/math.py",
        "def add(a, b):  # noqa: PL001\n    return a + b\n",
        &rules,
        &cache,
        "/proj",
    );
    assert!(violations.iter().all(|v| !v.rule_name.starts_with("PL001")));
    assert!(violations.iter().any(|v| v.rule_name.starts_with("PL002") && v.function_name == "add"));
}

#[test]
fn test_lint_runs_are_identical() {
    // Two runs over an unchanged tree yield the same violations.
    let linter = RustLinter::new(None, None, None);
    let cache = cache_of(vec![(
        "/proj/test/integration/pkg/test_math.py",
        "def test_integration_add():\n    assert True\n",
    )]);
    let rules = get_all_rules();
    let content = "def add(a, b):\n    return a + b\n\ndef _helper():\n    pass\n";
    let first = linter.lint_file_internal_with_cache(
        "/proj/pkg/math.py",
        content,
        &rules,
        &cache,
        "/proj",
    );
    let second = linter.lint_file_internal_with_cache(
        "/proj/pkg/math.py",
        content,
        &rules,
        &cache,
        "/proj",
    );
    assert_eq!(first, second);
}

#[test]
fn test_protocol_methods_skipped() {
    let linter = RustLinter::new(None, None, None);
    let cache = cache_of(vec![]);
    let rules = get_all_rules();
    let violations = linter.lint_file_internal_with_cache(
        "/proj/pkg/ports.py",
        "class Clock(Protocol):\n    def now(self):\n        ...\n",
        &rules,
        &cache,
        "/proj",
    );
    assert_eq!(violations.len(), 0);
}

#[test]
fn test_init_and_private_skipping_asymmetry() {
    // `__init__` is skipped by every rule; `_helper` is skipped by the
    // unit and e2e rules but not by the integration rule.
    let linter = RustLinter::new(None, None, None);
    let cache = cache_of(vec![]);
    let rules = get_all_rules();
    let violations = linter.lint_file_internal_with_cache(
        "/proj/pkg/thing.py",
        "class Thing:\n    def __init__(self):\n        pass\n\ndef _helper():\n    pass\n",
        &rules,
        &cache,
        "/proj",
    );
    assert!(violations.iter().all(|v| v.function_name != "__init__"));
    let helper: Vec<_> = violations.iter().filter(|v| v.function_name == "_helper").collect();
    assert_eq!(helper.len(), 1);
    assert!(helper[0].rule_name.starts_with("PL002"));
}

#[test]
fn test_class_scope_closes_on_dedent() {
    // After the class body ends with an unindented statement, a later
    // indented definition is no longer a method of the class.
    let linter = RustLinter::new(None, None, None);
    let cache = cache_of(vec![(
        "/proj/test/unit/test_mod.py",
        "def test_solo():\n    assert True\n",
    )]);
    let rules = get_all_rules();
    let content = "class Box:\n    def get(self):\n        pass\nVALUE = 1\ndef solo():\n    pass\n";
    let violations = linter.lint_file_internal_with_cache(
        "/proj/pkg/mod.py",
        content,
        &rules,
        &cache,
        "/proj",
    );
    // `solo` is covered by `test_solo`; `get` (a method of Box) is not.
    assert!(violations
        .iter()
        .all(|v| !(v.rule_name.starts_with("PL001") && v.function_name == "solo")));
    assert!(violations
        .iter()
        .any(|v| v.rule_name.starts_with("PL001") && v.function_name == "get"));
}

#[test]
fn test_general_tier_file_satisfies_every_rule() {
    // A test file directly under `test/` is unclassified and satisfies
    // all three tiers.
    let linter = RustLinter::new(None, None, None);
    let cache = cache_of(vec![(
        "/proj/test/test_math.py",
        "def test_add():\n    assert True\n",
    )]);
    let rules = get_all_rules();
    let violations = linter.lint_file_internal_with_cache(
        "/proj/pkg/math.py",
        "def add(a, b):\n    return a + b\n",
        &rules,
        &cache,
        "/proj",
    );
    assert_eq!(violations.len(), 0);
}

#[test]
fn test_empty_file_reports_nothing() {
    let linter = RustLinter::new(None, None, None);
    let cache = cache_of(vec![]);
    let rules = get_all_rules();
    let violations =
        linter.lint_file_internal_with_cache("/proj/pkg/empty.py", "", &rules, &cache, "/proj");
    assert_eq!(violations.len(), 0);
}

#[test]
fn test_linter_defaults() {
    let linter = RustLinter::new(None, None, None);
    assert_eq!(linter.test_directories, vec!["test".to_string(), "tests".to_string()]);
    assert_eq!(linter.test_patterns, vec!["test_*.py".to_string(), "*_test.py".to_string()]);
    assert!(linter.exclude_patterns.is_empty());
}

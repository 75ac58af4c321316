use proboscis_linter::markers::{
    check_file, check_test_markers, extract_test_functions, get_test_type_from_path,
    infer_tested_function, should_check_test_for_function, source_file_name_for_test,
    MarkerFileInput,
};
use proboscis_linter::public_api::PublicApi;

#[test]
fn test_infer_tested_function() {
    // Test regular function pattern
    assert_eq!(
        infer_tested_function("test_my_function"),
        Some("my_function".to_string())
    );

    // Test class method pattern
    assert_eq!(
        infer_tested_function("test_MyClass_method"),
        Some("MyClass_method".to_string())
    );

    // Test underscore in function name
    assert_eq!(
        infer_tested_function("test_function_with_underscores"),
        Some("function_with_underscores".to_string())
    );

    // Test non-test function
    assert_eq!(infer_tested_function("not_a_test"), None);
}

#[test]
fn test_should_check_test_for_function() {
    let names = vec!["public_func".to_string(), "PublicClass".to_string()];

    let public_api = PublicApi { all_names: Some(names) };

    // Test public function
    assert!(should_check_test_for_function("public_func", &public_api));

    // Test private function
    assert!(!should_check_test_for_function("private_func", &public_api));

    // Test public class method
    assert!(should_check_test_for_function("PublicClass.method", &public_api));

    // Test private class method (underscore)
    assert!(!should_check_test_for_function("PublicClass._private_method", &public_api));

    // Test private class
    assert!(!should_check_test_for_function("PrivateClass.method", &public_api));
}

#[test]
fn test_get_test_type_from_path() {
    // Unit test path
    assert_eq!(
        get_test_type_from_path("/project/test/unit/test_example.py"),
        Some("unit".to_string())
    );

    // Integration test path
    assert_eq!(
        get_test_type_from_path("/project/test/integration/test_example.py"),
        Some("integration".to_string())
    );

    // E2E test path
    assert_eq!(
        get_test_type_from_path("/project/test/e2e/test_example.py"),
        Some("e2e".to_string())
    );

    // Non-test path
    assert_eq!(get_test_type_from_path("/project/test/other/test_example.py"), None);
}

#[test]
fn test_missing_e2e_marker_reported_and_fix_applies() {
    // A test file under test/e2e/ with an unmarked test function gets one
    // violation asking for the e2e tag ...
    let files = vec![MarkerFileInput {
        path: "/proj/test/e2e/test_shop.py".to_string(),
        content: "def test_checkout():\n    pass\n".to_string(),
        source_content: None,
    }];
    let violations = check_test_markers(&files);
    assert_eq!(violations.len(), 1);
    let v = &violations[0];
    assert_eq!(v.rule_name, "PL004:require-test-markers");
    assert_eq!(v.function_name, "test_checkout");
    assert_eq!(v.line_number, 1);
    assert!(v.message.contains("@pytest.mark.e2e"));
    assert_eq!(v.fix_type, Some("add_decorator".to_string()));
    assert_eq!(v.fix_content, Some("@pytest.mark.e2e".to_string()));
    assert_eq!(v.fix_line, Some(1));

    // ... and adding the decorator above the line removes it on re-run.
    let fixed = vec![MarkerFileInput {
        path: "/proj/test/e2e/test_shop.py".to_string(),
        content: "@pytest.mark.e2e\ndef test_checkout():\n    pass\n".to_string(),
        source_content: None,
    }];
    let violations = check_test_markers(&fixed);
    assert_eq!(violations.len(), 0);
}

#[test]
fn test_marker_spellings_accepted() {
    for decorator in [
        "@pytest.mark.unit",
        "@mark.unit",
        "@unit",
        "@pytest.mark.unit()",
        "@mark.unit()",
        "@unit()",
    ] {
        let content = format!("{}\ndef test_sum():\n    pass\n", decorator);
        let violations = check_file("/p/test/unit/test_math.py", &content, None);
        assert_eq!(violations.len(), 0, "decorator {} should satisfy the rule", decorator);
    }
    let violations = check_file(
        "/p/test/unit/test_math.py",
        "@pytest.mark.integration\ndef test_sum():\n    pass\n",
        None,
    );
    assert_eq!(violations.len(), 1);
}

#[test]
fn test_marker_file_wide_suppression() {
    let content = "# noqa: PL004\ndef test_alpha():\n    pass\n";
    let violations = check_file("/p/test/unit/test_mod.py", content, None);
    assert_eq!(violations.len(), 0);
}

#[test]
fn test_marker_line_suppression() {
    let content = "def test_alpha():  # noqa: PL004\n    pass\n\ndef test_beta():\n    pass\n";
    let violations = check_file("/p/test/unit/test_mod.py", content, None);
    assert_eq!(violations.len(), 1);
    assert_eq!(violations[0].function_name, "test_beta");
}

#[test]
fn test_marker_skips_private_targets() {
    // The inferred target `_hidden` is private, so the unmarked test is
    // not checked.
    let content = "def test__hidden():\n    pass\n";
    let violations = check_file("/p/test/unit/test_mod.py", content, None);
    assert_eq!(violations.len(), 0);
}

#[test]
fn test_marker_respects_source_export_list() {
    // The source module exports nothing, so the tested name is not
    // public and the check is skipped.
    let source = "__all__ = ['other']\ndef helper():\n    pass\n";
    let content = "def test_helper():\n    pass\n";
    let violations = check_file("/p/test/unit/test_mod.py", content, Some(source));
    assert_eq!(violations.len(), 0);
}

#[test]
fn test_marker_files_outside_tiers_skipped() {
    let files = vec![MarkerFileInput {
        path: "/proj/test/test_misc.py".to_string(),
        content: "def test_misc():\n    pass\n".to_string(),
        source_content: None,
    }];
    let violations = check_test_markers(&files);
    assert_eq!(violations.len(), 0);
}

#[test]
fn test_extract_test_functions_decorators() {
    let content = "@pytest.mark.unit\n@slow  # inline comment\ndef test_alpha():\n    pass\n\ndef helper():\n    pass\n";
    let funcs = extract_test_functions(content);
    assert_eq!(funcs.len(), 1);
    assert_eq!(funcs[0].name, "test_alpha");
    assert_eq!(funcs[0].line_number, 3);
    assert_eq!(funcs[0].decorators, vec!["pytest.mark.unit".to_string(), "slow".to_string()]);
}

#[test]
fn test_source_file_name_for_test() {
    assert_eq!(source_file_name_for_test("test_module.py"), Some("module.py".to_string()));
    assert_eq!(source_file_name_for_test("module_test.py"), Some("module.py".to_string()));
    assert_eq!(source_file_name_for_test("helpers.py"), None);
}

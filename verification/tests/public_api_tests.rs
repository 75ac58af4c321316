use proboscis_linter::public_api::{
    extract_module_all, parse_all_names, should_check_function, PublicApi,
};

fn has(names: &[String], name: &str) -> bool {
    names.iter().any(|n| n == name)
}

#[test]
fn test_parse_all_names() {
    let content = "'func1', 'func2', \"func3\"";
    let names = parse_all_names(content);
    assert_eq!(names.len(), 3);
    assert!(has(&names, "func1"));
    assert!(has(&names, "func2"));
    assert!(has(&names, "func3"));
}

#[test]
fn test_parse_all_names_multiline() {
    let content = r#"
            'func1',
            "func2",
            'func3'
        "#;
    let names = parse_all_names(content);
    assert_eq!(names.len(), 3);
}

#[test]
fn test_parse_all_names_empty() {
    let content = "";
    let names = parse_all_names(content);
    assert_eq!(names.len(), 0);
}

#[test]
fn test_is_public_with_all() {
    let names = vec!["public_func".to_string()];

    let public_api = PublicApi { all_names: Some(names) };

    assert!(public_api.is_public("public_func"));
    assert!(!public_api.is_public("other_func"));
    assert!(!public_api.is_public("_private_func"));
}

#[test]
fn test_is_public_without_all() {
    let public_api = PublicApi::default();

    assert!(public_api.is_public("public_func"));
    assert!(!public_api.is_public("_private_func"));
    assert!(!public_api.is_public("__double_underscore"));
}

#[test]
fn test_extract_module_all_found() {
    let content = "import os\n__all__ = ['alpha', \"beta\"]\n\ndef alpha():\n    pass\n";
    let api = extract_module_all(content);
    let names = api.all_names.expect("export list should be found");
    assert_eq!(names.len(), 2);
    assert!(has(&names, "alpha"));
    assert!(has(&names, "beta"));
}

#[test]
fn test_extract_module_all_multiline() {
    let content = "__all__ = [\n    'one',\n    'two',\n]\n";
    let api = extract_module_all(content);
    let names = api.all_names.expect("export list should be found");
    assert_eq!(names.len(), 2);
    assert!(has(&names, "one"));
    assert!(has(&names, "two"));
}

#[test]
fn test_extract_module_all_absent() {
    let content = "def alpha():\n    pass\n";
    let api = extract_module_all(content);
    assert!(api.all_names.is_none());
}

#[test]
fn test_should_check_function_rules() {
    let api = PublicApi::default();
    assert!(!should_check_function("__init__", None, &api, false));
    assert!(!should_check_function("__init__", None, &api, true));
    assert!(should_check_function("_private", None, &api, true));
    assert!(!should_check_function("_private", None, &api, false));
    assert!(!should_check_function("_helper", Some("Wallet"), &api, false));
    assert!(should_check_function("balance", Some("Wallet"), &api, false));
    assert!(!should_check_function("balance", Some("_Hidden"), &api, false));
}

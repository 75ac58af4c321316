use proboscis_linter::test_cache::{extract_functions, TestCache, TestFileData, TestType};
use proboscis_linter::test_discovery::find_test_for_function;

fn data(files: Vec<(&str, &str)>) -> Vec<TestFileData> {
    files
        .into_iter()
        .map(|(p, c)| TestFileData { path: p.to_string(), content: c.to_string() })
        .collect()
}

#[test]
fn test_type_from_path_classification() {
    assert_eq!(TestType::from_path("/p/test/unit/test_a.py"), TestType::Unit);
    assert_eq!(TestType::from_path("/p/test/integration/test_a.py"), TestType::Integration);
    assert_eq!(TestType::from_path("/p/test/e2e/test_a.py"), TestType::E2E);
    assert_eq!(TestType::from_path("/p/test/test_a.py"), TestType::General);
    // The e2e segment wins over a unit segment elsewhere in the path.
    assert_eq!(TestType::from_path("/p/unit/e2e/test_a.py"), TestType::E2E);
    assert_eq!(TestType::as_str(&TestType::Unit), "unit");
    assert_eq!(TestType::as_str(&TestType::General), "general");
}

#[test]
fn test_canonical_pattern_is_tier_independent() {
    let cache = TestCache::new();
    for tier in [TestType::Unit, TestType::Integration, TestType::E2E, TestType::General] {
        assert_eq!(cache.get_canonical_test_pattern("add", None, &tier), "test_add");
        assert_eq!(
            cache.get_canonical_test_pattern("balance", Some("Wallet"), &tier),
            "test_Wallet_balance"
        );
    }
}

#[test]
fn test_acceptable_patterns_contain_canonical_and_fallback() {
    let cache = TestCache::new();
    for tier in [TestType::Unit, TestType::Integration, TestType::E2E, TestType::General] {
        let pats = cache.generate_test_patterns("add", None, &tier);
        assert!(pats.iter().any(|p| p == "test_add"));
        let canonical = cache.get_canonical_test_pattern("balance", Some("Wallet"), &tier);
        let pats = cache.generate_test_patterns("balance", Some("Wallet"), &tier);
        assert!(pats.iter().any(|p| *p == canonical));
        // The bare name is the last-resort fallback at every tier.
        assert!(pats.iter().any(|p| p == "test_balance"));
    }
}

#[test]
fn test_integration_patterns_for_method() {
    let cache = TestCache::new();
    let pats = cache.generate_test_patterns("balance", Some("Wallet"), &TestType::Integration);
    assert_eq!(
        pats,
        vec![
            "test_integration_Wallet_balance".to_string(),
            "test_int_Wallet_balance".to_string(),
            "test_Wallet_balance".to_string(),
            "test_integration_balance".to_string(),
            "test_balance".to_string(),
        ]
    );
}

#[test]
fn test_unit_patterns_for_method() {
    let cache = TestCache::new();
    let pats = cache.generate_test_patterns("balance", Some("Wallet"), &TestType::Unit);
    assert_eq!(
        pats,
        vec![
            "test_Wallet_balance".to_string(),
            "test_wallet_balance".to_string(),
            "test_unit_Wallet_balance".to_string(),
            "test_balance".to_string(),
        ]
    );
}

#[test]
fn test_extract_functions_dedups() {
    let names = extract_functions("def a():\n    pass\ndef b(x):\n    pass\ndef a():\n    pass\n");
    assert_eq!(names, vec!["a".to_string(), "b".to_string()]);
}

#[test]
fn test_build_skips_files_without_definitions() {
    let cache = TestCache::build_from_contents(&data(vec![
        ("/p/test/unit/test_a.py", "def test_a():\n    pass\n"),
        ("/p/test/unit/notes.py", "# just a comment\n"),
    ]));
    assert_eq!(cache.test_files.len(), 1);
    assert_eq!(cache.test_files[0].path, "/p/test/unit/test_a.py");
    assert_eq!(cache.test_files[0].test_type, TestType::Unit);
    assert_eq!(cache.test_files[0].functions, vec!["test_a".to_string()]);
}

#[test]
fn test_cache_query_matches_rescan() {
    // The cache answers exactly as a full rescan of the same files.
    let files = data(vec![
        ("/p/test/unit/test_math.py", "def test_add():\n    pass\n"),
        ("/p/test/e2e/test_flow.py", "def test_e2e_checkout():\n    pass\n"),
        ("/p/test/unit/empty.py", "# nothing here\n"),
    ]);
    let cache = TestCache::build_from_contents(&files);
    for (f, src, class) in [
        ("add", "/p/src/math.py", None),
        ("checkout", "/p/src/flow.py", None),
        ("missing", "/p/src/math.py", None),
        ("balance", "/p/src/wallet.py", Some("Wallet")),
    ] {
        assert_eq!(
            cache.has_test_for_function(f, src, class),
            find_test_for_function(f, src, class, &files),
            "cache and rescan disagree on {}",
            f
        );
    }
    assert!(cache.has_test_for_function("add", "/p/src/math.py", None));
    assert!(!cache.has_test_for_function("missing", "/p/src/math.py", None));
}

#[test]
fn test_typed_query_uses_directory_convention() {
    let files = data(vec![(
        "/p/test/unit/pkg/test_math.py",
        "def test_add():\n    pass\n",
    )]);
    let cache = TestCache::build_from_contents(&files);
    assert!(cache.has_test_for_function_of_type(
        "add",
        "/p/src/pkg/math.py",
        None,
        &TestType::Unit,
        "pkg.math",
        "/p"
    ));
    // An integration-tier query is not satisfied by a unit-tier file.
    assert!(!cache.has_test_for_function_of_type(
        "add",
        "/p/src/pkg/math.py",
        None,
        &TestType::Integration,
        "pkg.math",
        "/p"
    ));
}

#[test]
fn test_locations_sorted_and_deduped() {
    let cache = TestCache::build_from_contents(&data(vec![
        ("/p/test/unit/zeta/test_z.py", "def test_z():\n    pass\n"),
        ("/p/test/unit/alpha/test_a.py", "def test_a():\n    pass\n"),
        ("/p/test/unit/alpha/test_b.py", "def test_b():\n    pass\n"),
        ("/p/test/e2e/test_c.py", "def test_c():\n    pass\n"),
    ]));
    let locations = cache.get_test_locations();
    assert_eq!(locations.len(), 4);
    assert_eq!(locations[0].0, TestType::Unit);
    assert_eq!(locations[0].1, vec!["alpha".to_string(), "zeta".to_string()]);
    assert_eq!(locations[2].0, TestType::E2E);
    assert_eq!(locations[2].1, vec!["e2e".to_string()]);
    assert_eq!(locations[1].1.len(), 0);
    assert_eq!(locations[3].1.len(), 0);
}

#[test]
fn test_expected_test_paths() {
    let cache = TestCache::new();
    assert_eq!(
        cache.get_expected_test_path("pkg.mod1.submod", &TestType::Unit, "/proj"),
        "test/unit/pkg/mod1"
    );
    assert_eq!(cache.get_expected_test_path("single", &TestType::E2E, "/proj"), "test/e2e");
    assert_eq!(cache.get_expected_test_path("a.b", &TestType::General, "/proj"), "test/a");
    assert_eq!(
        cache.get_expected_test_file_path("pkg.math", "math.py", &TestType::Unit, "/proj"),
        "/proj/test/unit/pkg/test_math.py"
    );
    assert_eq!(
        cache.get_expected_test_file_path("pkg.math", "math", &TestType::Integration, "/proj"),
        "/proj/test/integration/pkg/test_math.py"
    );
}

use proboscis_linter::noqa::parse_noqa_rules;

fn has(rules: &[String], rule: &str) -> bool {
    rules.iter().any(|r| r == rule)
}

#[test]
fn test_parse_noqa_single_rule() {
    let rules = parse_noqa_rules("def foo():  #noqa PL001");
    assert_eq!(rules.len(), 1);
    assert!(has(&rules, "PL001"));
}

#[test]
fn test_parse_noqa_with_colon() {
    let rules = parse_noqa_rules("def foo():  #noqa: PL001");
    assert_eq!(rules.len(), 1);
    assert!(has(&rules, "PL001"));
}

#[test]
fn test_parse_noqa_multiple_rules() {
    let rules = parse_noqa_rules("def foo():  #noqa PL001, PL002");
    assert_eq!(rules.len(), 2);
    assert!(has(&rules, "PL001"));
    assert!(has(&rules, "PL002"));
}

#[test]
fn test_parse_noqa_multiple_rules_with_colon() {
    let rules = parse_noqa_rules("def foo():  #noqa: PL001, PL002, PL003");
    assert_eq!(rules.len(), 3);
    assert!(has(&rules, "PL001"));
    assert!(has(&rules, "PL002"));
    assert!(has(&rules, "PL003"));
}

#[test]
fn test_parse_noqa_with_extra_spaces() {
    let rules = parse_noqa_rules("def foo():  # noqa : PL001 , PL002");
    assert_eq!(rules.len(), 2);
    assert!(has(&rules, "PL001"));
    assert!(has(&rules, "PL002"));
}

#[test]
fn test_parse_noqa_no_rules() {
    let rules = parse_noqa_rules("def foo():  #noqa");
    assert_eq!(rules.len(), 0);
}

#[test]
fn test_parse_no_noqa() {
    let rules = parse_noqa_rules("def foo():  # just a comment");
    assert_eq!(rules.len(), 0);
}

#[test]
fn test_parse_noqa_duplicate_rule_kept_once() {
    let rules = parse_noqa_rules("x = 1  #noqa: PL001, PL001");
    assert_eq!(rules.len(), 1);
    assert!(has(&rules, "PL001"));
}

#[test]
fn test_parse_noqa_ignores_short_tokens() {
    let rules = parse_noqa_rules("x = 1  #noqa: PL, nope, PL007");
    assert_eq!(rules.len(), 1);
    assert!(has(&rules, "PL007"));
}

//! The coverage rules: one per required tier.  Each rule inspects one
//! source function at a time and produces at most one violation; the
//! rule set is closed and dispatched through a single evaluation
//! function.

use vstd::prelude::*;

use crate::models::{LintViolation, ViolationView};
use crate::noqa::{line_suppresses, suppresses};
use crate::paths::file_name_of;
use crate::paths::file_name;
use crate::test_cache::{
    cache_has_test_of_type, canonical_pattern, expected_test_file, TestCache, TestFileView,
    TestType,
};
use crate::text::str_eq;
use crate::text::str_len;

verus! {

/// Everything a rule consults besides the function itself: the
/// configured test directories, the shared test cache, the source
/// file's module path, and the project root.
pub struct RuleContext<'a> {
    pub test_directories: &'a Vec<String>,
    pub test_cache: &'a TestCache,
    pub mod_path: &'a str,
    pub project_root: &'a str,
}

/// The message of a missing-test violation: it names the canonical
/// expected test function and the expected test file location.
pub open spec fn violation_message(
    rule_id: Seq<char>,
    f: Seq<char>,
    c: Option<Seq<char>>,
    tier_phrase: Seq<char>,
    test_name: Seq<char>,
    expected_file: Seq<char>,
) -> Seq<char> {
    match c {
        Some(cl) => "["@ + rule_id + "] Method '"@ + f + "' of class '"@ + cl + "' has no "@
            + tier_phrase + " test found.\nExpected test function: "@ + test_name
            + "\nIn test file: "@ + expected_file,
        None => "["@ + rule_id + "] Function '"@ + f + "' has no "@ + tier_phrase
            + " test found.\nExpected test function: "@ + test_name + "\nIn test file: "@
            + expected_file,
    }
}

/// Build the message of a missing-test violation.
fn build_violation_message(
    rule_id: &str,
    f: &str,
    class_name: Option<&str>,
    tier_phrase: &str,
    test_name: &str,
    expected_file: &str,
) -> (r: String)
    ensures
        r@ == violation_message(
            rule_id@,
            f@,
            match class_name {
                Some(c) => Some(c@),
                None => None,
            },
            tier_phrase@,
            test_name@,
            expected_file@,
        ),
{
    let mut s = String::from_str("[");
    s.append(rule_id);
    match class_name {
        Some(class) => {
            s.append("] Method '");
            s.append(f);
            s.append("' of class '");
            s.append(class);
            s.append("' has no ");
        },
        None => {
            s.append("] Function '");
            s.append(f);
            s.append("' has no ");
        },
    }
    s.append(tier_phrase);
    s.append(" test found.\nExpected test function: ");
    s.append(test_name);
    s.append("\nIn test file: ");
    s.append(expected_file);
    proof {
        assert(s@ =~= violation_message(
            rule_id@,
            f@,
            match class_name {
                Some(c) => Some(c@),
                None => None,
            },
            tier_phrase@,
            test_name@,
            expected_file@,
        ));
    }
    s
}

/// The outcome of one tiered rule on one function: skipped when the
/// line suppresses the rule, when the function is a protocol method,
/// an initialiser, or (where the tier skips them) underscore-prefixed,
/// or when the cache holds an acceptable test; a violation otherwise.
pub open spec fn tier_rule_check(
    rule_id: Seq<char>,
    composed_name: Seq<char>,
    tier: TestType,
    tier_phrase: Seq<char>,
    skip_private: bool,
    f: Seq<char>,
    file_path: Seq<char>,
    line_number: int,
    line: Seq<char>,
    c: Option<Seq<char>>,
    is_protocol: bool,
    cache: Seq<TestFileView>,
    mod_path: Seq<char>,
    root: Seq<char>,
) -> Option<ViolationView> {
    if suppresses(line, rule_id) {
        None
    } else if is_protocol && c is Some {
        None
    } else if f == "__init__"@ {
        None
    } else if skip_private && f.len() > 0 && f[0] == '_' {
        None
    } else if cache_has_test_of_type(cache, f, file_path, c, tier, mod_path) {
        None
    } else {
        Some(
            ViolationView {
                rule_name: composed_name,
                file_path: file_path,
                line_number: line_number,
                function_name: f,
                message: violation_message(
                    rule_id,
                    f,
                    c,
                    tier_phrase,
                    canonical_pattern(f, c, tier),
                    expected_test_file(mod_path, file_name_of(file_path), tier, root),
                ),
                severity: "error"@,
                fix_type: None,
                fix_content: None,
                fix_line: None,
            },
        )
    }
}

/// Shared executable body of the three tiered rules.
fn tier_rule_check_exec(
    rule_id: &str,
    composed_name: &str,
    tier: TestType,
    tier_phrase: &str,
    skip_private: bool,
    function_name: &str,
    file_path: &str,
    line_number: usize,
    line_content: &str,
    class_name: Option<&str>,
    is_protocol: bool,
    context: &RuleContext,
) -> (r: Option<LintViolation>)
    ensures
        ({
            let spec_r = tier_rule_check(
                rule_id@,
                composed_name@,
                tier,
                tier_phrase@,
                skip_private,
                function_name@,
                file_path@,
                line_number as int,
                line_content@,
                match class_name {
                    Some(c) => Some(c@),
                    None => None,
                },
                is_protocol,
                context.test_cache@,
                context.mod_path@,
                context.project_root@,
            );
            match r {
                Some(v) => spec_r == Some(v@),
                None => spec_r is None,
            }
        }),
{
    if line_suppresses(line_content, rule_id) {
        return None;
    }
    if is_protocol && class_name.is_some() {
        return None;
    }
    proof {
        reveal_strlit("__init__");
    }
    if str_eq(function_name, "__init__") {
        return None;
    }
    if skip_private {
        let fn_len = str_len(function_name);
        if fn_len > 0 {
            let c0 = function_name.get_char(0);
            if c0 == '_' {
                return None;
            }
        }
    }
    let test_found = context.test_cache.has_test_for_function_of_type(
        function_name,
        file_path,
        class_name,
        &tier,
        context.mod_path,
        context.project_root,
    );
    if test_found {
        return None;
    }
    let test_name = context.test_cache.get_canonical_test_pattern(
        function_name,
        class_name,
        &tier,
    );
    let source_file_name = file_name(file_path);
    let expected_file = context.test_cache.get_expected_test_file_path(
        context.mod_path,
        source_file_name,
        &tier,
        context.project_root,
    );
    let message = build_violation_message(
        rule_id,
        function_name,
        class_name,
        tier_phrase,
        test_name.as_str(),
        expected_file.as_str(),
    );
    Some(
        LintViolation {
            rule_name: String::from_str(composed_name),
            file_path: String::from_str(file_path),
            line_number,
            function_name: String::from_str(function_name),
            message,
            severity: String::from_str("error"),
            fix_type: None,
            fix_content: None,
            fix_line: None,
        },
    )
}

/// The unit-test rule: every qualifying function needs a unit-tier test.
pub struct PL001RequireTest {}

/// The integration-test rule.  (Unlike the unit and end-to-end rules it
/// does not skip underscore-prefixed names; the asymmetry is kept as
/// found.)
pub struct PL002RequireIntegrationTest {}

/// The end-to-end-test rule.
pub struct PL003RequireE2ETest {}

impl PL001RequireTest {
    pub fn new() -> (r: Self) {
        PL001RequireTest {  }
    }

    pub fn rule_id(&self) -> (r: &'static str)
        ensures
            r@ == "PL001"@,
    {
        "PL001"
    }

    pub fn rule_name(&self) -> (r: &'static str)
        ensures
            r@ == "require-test"@,
    {
        "require-test"
    }
}

impl PL002RequireIntegrationTest {
    pub fn new() -> (r: Self) {
        PL002RequireIntegrationTest {  }
    }

    pub fn rule_id(&self) -> (r: &'static str)
        ensures
            r@ == "PL002"@,
    {
        "PL002"
    }

    pub fn rule_name(&self) -> (r: &'static str)
        ensures
            r@ == "require-integration-test"@,
    {
        "require-integration-test"
    }
}

impl PL003RequireE2ETest {
    pub fn new() -> (r: Self) {
        PL003RequireE2ETest {  }
    }

    pub fn rule_id(&self) -> (r: &'static str)
        ensures
            r@ == "PL003"@,
    {
        "PL003"
    }

    pub fn rule_name(&self) -> (r: &'static str)
        ensures
            r@ == "require-e2e-test"@,
    {
        "require-e2e-test"
    }
}

/// The closed set of rules, dispatched through one evaluation function.
pub enum LintRule {
    Pl001(PL001RequireTest),
    Pl002(PL002RequireIntegrationTest),
    Pl003(PL003RequireE2ETest),
}

/// The identifier a rule checks suppressions against.
pub open spec fn rule_id_of(rule: LintRule) -> Seq<char> {
    match rule {
        LintRule::Pl001(_) => "PL001"@,
        LintRule::Pl002(_) => "PL002"@,
        LintRule::Pl003(_) => "PL003"@,
    }
}

/// The outcome of a rule on one function (see [`tier_rule_check`]).
pub open spec fn rule_check(
    rule: LintRule,
    f: Seq<char>,
    file_path: Seq<char>,
    line_number: int,
    line: Seq<char>,
    c: Option<Seq<char>>,
    is_protocol: bool,
    cache: Seq<TestFileView>,
    mod_path: Seq<char>,
    root: Seq<char>,
) -> Option<ViolationView> {
    match rule {
        LintRule::Pl001(_) => tier_rule_check(
            "PL001"@,
            "PL001:require-test"@,
            TestType::Unit,
            "unit"@,
            true,
            f,
            file_path,
            line_number,
            line,
            c,
            is_protocol,
            cache,
            mod_path,
            root,
        ),
        LintRule::Pl002(_) => tier_rule_check(
            "PL002"@,
            "PL002:require-integration-test"@,
            TestType::Integration,
            "integration"@,
            false,
            f,
            file_path,
            line_number,
            line,
            c,
            is_protocol,
            cache,
            mod_path,
            root,
        ),
        LintRule::Pl003(_) => tier_rule_check(
            "PL003"@,
            "PL003:require-e2e-test"@,
            TestType::E2E,
            "e2e"@,
            true,
            f,
            file_path,
            line_number,
            line,
            c,
            is_protocol,
            cache,
            mod_path,
            root,
        ),
    }
}

impl LintRule {
    /// Evaluate this rule on one source function.
    pub fn check_function(
        &self,
        function_name: &str,
        file_path: &str,
        line_number: usize,
        line_content: &str,
        class_name: Option<&str>,
        is_protocol: bool,
        context: &RuleContext,
    ) -> (r: Option<LintViolation>)
        ensures
            ({
                let spec_r = rule_check(
                    *self,
                    function_name@,
                    file_path@,
                    line_number as int,
                    line_content@,
                    match class_name {
                        Some(c) => Some(c@),
                        None => None,
                    },
                    is_protocol,
                    context.test_cache@,
                    context.mod_path@,
                    context.project_root@,
                );
                match r {
                    Some(v) => spec_r == Some(v@),
                    None => spec_r is None,
                }
            }),
    {
        match self {
            LintRule::Pl001(_) => tier_rule_check_exec(
                "PL001",
                "PL001:require-test",
                TestType::Unit,
                "unit",
                true,
                function_name,
                file_path,
                line_number,
                line_content,
                class_name,
                is_protocol,
                context,
            ),
            LintRule::Pl002(_) => tier_rule_check_exec(
                "PL002",
                "PL002:require-integration-test",
                TestType::Integration,
                "integration",
                false,
                function_name,
                file_path,
                line_number,
                line_content,
                class_name,
                is_protocol,
                context,
            ),
            LintRule::Pl003(_) => tier_rule_check_exec(
                "PL003",
                "PL003:require-e2e-test",
                TestType::E2E,
                "e2e",
                true,
                function_name,
                file_path,
                line_number,
                line_content,
                class_name,
                is_protocol,
                context,
            ),
        }
    }
}

/// The rules, in their fixed registration order.
pub fn get_all_rules() -> (r: Vec<LintRule>)
    ensures
        r@ =~= seq![
            LintRule::Pl001(PL001RequireTest {  }),
            LintRule::Pl002(PL002RequireIntegrationTest {  }),
            LintRule::Pl003(PL003RequireE2ETest {  }),
        ],
{
    let mut rules: Vec<LintRule> = Vec::new();
    rules.push(LintRule::Pl001(PL001RequireTest::new()));
    rules.push(LintRule::Pl002(PL002RequireIntegrationTest::new()));
    rules.push(LintRule::Pl003(PL003RequireE2ETest::new()));
    rules
}

/// Suppression soundness: a line carrying a suppression directive that
/// names a rule's identifier never yields a violation from that rule at
/// that line, whatever the cache holds.
pub proof fn lemma_suppression_sound(
    rule: LintRule,
    f: Seq<char>,
    file_path: Seq<char>,
    line_number: int,
    line: Seq<char>,
    c: Option<Seq<char>>,
    is_protocol: bool,
    cache: Seq<TestFileView>,
    mod_path: Seq<char>,
    root: Seq<char>,
)
    requires
        suppresses(line, rule_id_of(rule)),
    ensures
        rule_check(
            rule,
            f,
            file_path,
            line_number,
            line,
            c,
            is_protocol,
            cache,
            mod_path,
            root,
        ) is None,
{
}

} // verus!

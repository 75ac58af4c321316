//! The marker-consistency checker: a pass over test files only, which
//! validates that each test function carries the pytest marker matching
//! the tier directory its file lies in.

use vstd::prelude::*;

use crate::models::{vio_views, LintViolation, ViolationView};
use crate::noqa::{noqa_rules_of, parse_noqa_rules};
use crate::public_api::{extract_module_all, is_public_spec, module_all_spec, PublicApi};
use crate::scan::{
    decorator_line_check, decorator_line_parse, def_line_parse, is_decorator_line,
    parse_decorator_line, parse_def_line,
};
use crate::text::{
    contains_seq, find_char, lines_of, seq_has, split_lines, starts_with_seq, trim_seq, views_of,
};
use crate::text::{
    contains_exec, find_char_exec, starts_with_exec, str_eq, str_len, trim_exec,
    vec_contains_str,
};

verus! {

/// The marker a test file's path demands: the first of `unit`,
/// `integration`, `e2e` appearing as a path segment; `None` (file
/// skipped) outside the three recognised tier directories.
pub open spec fn marker_of_path(p: Seq<char>) -> Option<Seq<char>> {
    if contains_seq(p, "/unit/"@) || contains_seq(p, "\\unit\\"@) {
        Some("unit"@)
    } else if contains_seq(p, "/integration/"@) || contains_seq(p, "\\integration\\"@) {
        Some("integration"@)
    } else if contains_seq(p, "/e2e/"@) || contains_seq(p, "\\e2e\\"@) {
        Some("e2e"@)
    } else {
        None
    }
}

/// The marker a test file's path demands (see [`marker_of_path`]).
pub fn get_test_type_from_path(file_path: &str) -> (r: Option<String>)
    ensures
        match r {
            Some(m) => marker_of_path(file_path@) == Some(m@),
            None => marker_of_path(file_path@) is None,
        },
{
    if contains_exec(file_path, "/unit/") || contains_exec(file_path, "\\unit\\") {
        Some(String::from_str("unit"))
    } else if contains_exec(file_path, "/integration/") || contains_exec(
        file_path,
        "\\integration\\",
    ) {
        Some(String::from_str("integration"))
    } else if contains_exec(file_path, "/e2e/") || contains_exec(file_path, "\\e2e\\") {
        Some(String::from_str("e2e"))
    } else {
        None
    }
}

/// The source name a test name targets: the remainder after the
/// `test_` prefix (`None` for a name without the prefix).
pub open spec fn inferred_target(test_name: Seq<char>) -> Option<Seq<char>> {
    if starts_with_seq(test_name, "test_"@) {
        Some(test_name.subrange(5, test_name.len() as int))
    } else {
        None
    }
}

/// Infer the function a test targets (see [`inferred_target`]).
pub fn infer_tested_function(test_name: &str) -> (r: Option<String>)
    ensures
        match r {
            Some(t) => inferred_target(test_name@) == Some(t@),
            None => inferred_target(test_name@) is None,
        },
{
    proof {
        reveal_strlit("test_");
    }
    if starts_with_exec(test_name, "test_") {
        let n = str_len(test_name);
        Some(String::from_str(test_name.substring_char(5, n)))
    } else {
        None
    }
}

/// Whether a marker check applies to a test, judged by the name it
/// targets: for a `Class.method` target, the method must not be
/// private and the class must be public; otherwise the target itself
/// must be public.
pub open spec fn target_checked(t: Seq<char>, api: Option<Seq<Seq<char>>>) -> bool {
    let d = find_char(t, 0, '.');
    if d < t.len() {
        let method = t.subrange(d + 1, t.len() as int);
        if method.len() > 0 && method[0] == '_' {
            false
        } else {
            is_public_spec(api, t.subrange(0, d))
        }
    } else {
        is_public_spec(api, t)
    }
}

/// Executable counterpart of [`target_checked`].
pub fn should_check_test_for_function(tested_func: &str, public_api: &PublicApi) -> (r: bool)
    ensures
        r == target_checked(tested_func@, public_api@),
{
    let n = str_len(tested_func);
    let d = find_char_exec(tested_func, 0, '.');
    if d < n {
        let method = tested_func.substring_char(d + 1, n);
        let mn = str_len(method);
        if mn > 0 {
            let c0 = method.get_char(0);
            if c0 == '_' {
                return false;
            }
        }
        let class_name = tested_func.substring_char(0, d);
        public_api.is_public(class_name)
    } else {
        public_api.is_public(tested_func)
    }
}

/// Mathematical image of one test function with its decorator stack.
pub ghost struct TestFunctionView {
    pub name: Seq<char>,
    pub line_number: int,
    pub decorators: Seq<Seq<char>>,
}

/// A test function found in a test file: its name, its (1-based)
/// definition line, and its decorators in source order.
pub struct TestFunction {
    pub name: String,
    pub line_number: usize,
    pub decorators: Vec<String>,
}

impl View for TestFunction {
    type V = TestFunctionView;

    open spec fn view(&self) -> TestFunctionView {
        TestFunctionView {
            name: self.name@,
            line_number: self.line_number as int,
            decorators: views_of(self.decorators@),
        }
    }
}

/// The views of a list of test functions.
pub open spec fn tf_views(v: Seq<TestFunction>) -> Seq<TestFunctionView> {
    Seq::new(v.len(), |i: int| v[i]@)
}

/// The decorator texts attached to a definition at line index `i`: the
/// contiguous run of decorator lines immediately above it, in source
/// order.
pub open spec fn decor_stack(lines: Seq<Seq<char>>, i: int) -> Seq<Seq<char>>
    decreases i,
{
    if i <= 0 {
        Seq::empty()
    } else if is_decorator_line(lines[i - 1]) {
        let rest = decor_stack(lines, i - 1);
        match decorator_line_parse(lines[i - 1]) {
            Some(t) => rest.push(t),
            None => rest,
        }
    } else {
        Seq::empty()
    }
}

/// The decorator texts parsed from the lines of `[from, to)`, in order.
pub open spec fn decor_fold(lines: Seq<Seq<char>>, from: int, to: int) -> Seq<Seq<char>>
    decreases to - from,
{
    if to <= from {
        Seq::empty()
    } else {
        let prev = decor_fold(lines, from, to - 1);
        match decorator_line_parse(lines[to - 1]) {
            Some(t) => prev.push(t),
            None => prev,
        }
    }
}

/// Over a contiguous decorator run, the backward stack equals the
/// forward fold.
proof fn lemma_decor_run(lines: Seq<Seq<char>>, from: int, to: int)
    requires
        0 <= from <= to,
        forall|q: int| from <= q < to ==> is_decorator_line(#[trigger] lines[q]),
        from == 0 || !is_decorator_line(lines[from - 1]),
    ensures
        decor_stack(lines, to) == decor_fold(lines, from, to),
    decreases to - from,
{
    if to > from {
        lemma_decor_run(lines, from, to - 1);
    }
}

/// The test functions among the first `i` lines: each definition whose
/// name carries the `test_` prefix (with at least one character after
/// it), with its decorator stack.
pub open spec fn test_functions_upto(lines: Seq<Seq<char>>, i: int) -> Seq<TestFunctionView>
    decreases i,
{
    if i <= 0 {
        Seq::empty()
    } else {
        let prev = test_functions_upto(lines, i - 1);
        match def_line_parse(lines[i - 1]) {
            Some(p) => {
                if starts_with_seq(p.1, "test_"@) && p.1.len() > 5 {
                    prev.push(
                        TestFunctionView {
                            name: p.1,
                            line_number: i,
                            decorators: decor_stack(lines, i - 1),
                        },
                    )
                } else {
                    prev
                }
            },
            None => prev,
        }
    }
}

/// The test functions of a file's text.
pub open spec fn test_functions_of(content: Seq<char>) -> Seq<TestFunctionView> {
    test_functions_upto(lines_of(content), lines_of(content).len() as int)
}

/// Extract the test functions of a file's text with their decorators.
pub fn extract_test_functions(content: &str) -> (r: Vec<TestFunction>)
    ensures
        tf_views(r@) == test_functions_of(content@),
{
    let lines = split_lines(content);
    let n = lines.len();
    let ghost lv = lines_of(content@);
    let mut out: Vec<TestFunction> = Vec::new();
    let mut i: usize = 0;
    while i < n
        invariant
            i <= n,
            n == lv.len(),
            lines@.len() == lv.len(),
            forall|q: int| 0 <= q < lv.len() ==> lines@[q]@ == lv[q],
            tf_views(out@) == test_functions_upto(lv, i as int),
        decreases n - i,
    {
        proof {
            reveal_strlit("test_");
        }
        let mut is_test_def = false;
        let mut def_name: Option<String> = None;
        match parse_def_line(lines[i].as_str()) {
            Some(p) => {
                let (_indent, name) = p;
                let nl = str_len(name.as_str());
                if starts_with_exec(name.as_str(), "test_") && nl > 5 {
                    is_test_def = true;
                    def_name = Some(name);
                }
            },
            None => {},
        }
        if is_test_def {
            let name = match def_name {
                Some(nm) => nm,
                None => String::new(),
            };
            let mut k: usize = i;
            loop
                invariant
                    k <= i,
                    i < n,
                    n == lv.len(),
                    lines@.len() == lv.len(),
                    forall|q: int| 0 <= q < lv.len() ==> lines@[q]@ == lv[q],
                    forall|q: int| k <= q < i ==> is_decorator_line(#[trigger] lv[q]),
                ensures
                    k <= i,
                    forall|q: int| k <= q < i ==> is_decorator_line(#[trigger] lv[q]),
                    k == 0 || !is_decorator_line(lv[k - 1]),
                decreases k,
            {
                if k == 0 {
                    break;
                }
                if !decorator_line_check(lines[k - 1].as_str()) {
                    break;
                }
                k = k - 1;
            }
            let mut decorators: Vec<String> = Vec::new();
            let mut q: usize = k;
            while q < i
                invariant
                    k <= q <= i,
                    i < n,
                    n == lv.len(),
                    lines@.len() == lv.len(),
                    forall|z: int| 0 <= z < lv.len() ==> lines@[z]@ == lv[z],
                    views_of(decorators@) == decor_fold(lv, k as int, q as int),
                decreases i - q,
            {
                match parse_decorator_line(lines[q].as_str()) {
                    Some(t) => {
                        decorators.push(t);
                        proof {
                            assert(views_of(decorators@) =~= decor_fold(lv, k as int, q + 1));
                        }
                    },
                    None => {
                        proof {
                            assert(views_of(decorators@) =~= decor_fold(lv, k as int, q + 1));
                        }
                    },
                }
                q = q + 1;
            }
            proof {
                lemma_decor_run(lv, k as int, i as int);
            }
            out.push(TestFunction { name, line_number: i + 1, decorators });
            proof {
                assert(tf_views(out@) =~= test_functions_upto(lv, i + 1));
            }
        } else {
            proof {
                assert(tf_views(out@) =~= test_functions_upto(lv, i + 1));
            }
        }
        i = i + 1;
    }
    out
}

/// Whether one decorator spells the required marker: the qualified
/// form, the short form, or the bare tag, each with or without call
/// parentheses.
pub open spec fn decorator_matches(dec: Seq<char>, marker: Seq<char>) -> bool {
    let d = trim_seq(dec);
    d == "pytest.mark."@ + marker || d == "mark."@ + marker || d == marker || d == "pytest.mark."@
        + marker + "()"@ || d == "mark."@ + marker + "()"@ || d == marker + "()"@
}

/// Whether some decorator of the function carries the required marker.
pub open spec fn has_marker(func: TestFunctionView, marker: Seq<char>) -> bool {
    exists|i: int| 0 <= i < func.decorators.len() && decorator_matches(func.decorators[i], marker)
}

/// Whether the function carries the required pytest marker in any of
/// its accepted spellings.
pub fn has_pytest_marker(func: &TestFunction, expected_marker: &str) -> (r: bool)
    ensures
        r == has_marker(func@, expected_marker@),
{
    let n = func.decorators.len();
    let mut i: usize = 0;
    let mut found = false;
    loop
        invariant
            i <= n,
            n == func.decorators@.len(),
            found ==> has_marker(func@, expected_marker@),
            !found ==> forall|j: int|
                0 <= j < i ==> !decorator_matches(func@.decorators[j], expected_marker@),
        ensures
            found == has_marker(func@, expected_marker@),
        decreases n - i,
    {
        if i >= n {
            break;
        }
        let dec = trim_exec(func.decorators[i].as_str());
        let mut q1 = String::from_str("pytest.mark.");
        q1.append(expected_marker);
        let mut q2 = String::from_str("mark.");
        q2.append(expected_marker);
        let mut q4 = String::from_str("pytest.mark.");
        q4.append(expected_marker);
        q4.append("()");
        let mut q5 = String::from_str("mark.");
        q5.append(expected_marker);
        q5.append("()");
        let mut q6 = String::from_str(expected_marker);
        q6.append("()");
        let m = str_eq(dec, q1.as_str()) || str_eq(dec, q2.as_str()) || str_eq(
            dec,
            expected_marker,
        ) || str_eq(dec, q4.as_str()) || str_eq(dec, q5.as_str()) || str_eq(dec, q6.as_str());
        if m {
            found = true;
            proof {
                assert(decorator_matches(func@.decorators[i as int], expected_marker@));
            }
            break;
        }
        proof {
            assert(!decorator_matches(func@.decorators[i as int], expected_marker@));
        }
        i = i + 1;
    }
    found
}

/// Whether the leading comment block suppresses the marker rule for
/// the whole file: only blank, comment, or docstring lines are
/// considered, the directive must appear within the first three lines,
/// and the scan never looks past the fifth.
pub open spec fn file_wide_suppression(lines: Seq<Seq<char>>, i: int) -> bool
    decreases 5 - i,
{
    if i >= 5 || i >= lines.len() || i < 0 {
        false
    } else {
        let line = lines[i];
        if trim_seq(line).len() == 0 {
            file_wide_suppression(lines, i + 1)
        } else if !starts_with_seq(trim_seq(line), "#"@) && !starts_with_seq(
            trim_seq(line),
            "\"\"\""@,
        ) {
            false
        } else if seq_has(noqa_rules_of(line), "PL004"@) && i < 3 {
            true
        } else {
            file_wide_suppression(lines, i + 1)
        }
    }
}

/// The rules of `rules`, each tagged with a line number.
pub open spec fn tag_rules(rules: Seq<Seq<char>>, ln: int) -> Seq<(int, Seq<char>)> {
    Seq::new(rules.len(), |q: int| (ln, rules[q]))
}

/// The line-scoped suppressions of the first `i` lines: every rule a
/// line names, tagged with that (1-based) line.
pub open spec fn line_rules_upto(lines: Seq<Seq<char>>, i: int) -> Seq<(int, Seq<char>)>
    decreases i,
{
    if i <= 0 {
        Seq::empty()
    } else {
        line_rules_upto(lines, i - 1) + tag_rules(noqa_rules_of(lines[i - 1]), i)
    }
}

/// The views of a list of line-tagged rules.
pub open spec fn pair_views(v: Seq<(usize, String)>) -> Seq<(int, Seq<char>)> {
    Seq::new(v.len(), |q: int| (v[q].0 as int, v[q].1@))
}

/// The suppressions of one file for the marker rule: either file-wide,
/// or a set of line-scoped exemptions.
pub struct SuppressionSet {
    pub file_wide: bool,
    pub line_rules: Vec<(usize, String)>,
}

/// A line-scoped exemption for a rule is recorded.
pub open spec fn line_suppressed(entries: Seq<(int, Seq<char>)>, ln: int, rule: Seq<char>) -> bool {
    exists|q: int| 0 <= q < entries.len() && entries[q] == (ln, rule)
}

/// Collect a file's suppressions: file-wide when the leading comment
/// block names the marker rule, otherwise every line's directives as
/// line-scoped exemptions.
pub fn extract_file_noqa_rules(content: &str) -> (r: SuppressionSet)
    ensures
        r.file_wide == file_wide_suppression(lines_of(content@), 0),
        !r.file_wide ==> pair_views(r.line_rules@) == line_rules_upto(
            lines_of(content@),
            lines_of(content@).len() as int,
        ),
{
    let lines = split_lines(content);
    let n = lines.len();
    let ghost lv = lines_of(content@);
    proof {
        reveal_strlit("PL004");
        reveal_strlit("#");
        reveal_strlit("\"\"\"");
    }
    let mut file_wide = false;
    let mut i: usize = 0;
    loop
        invariant_except_break
            !file_wide,
        invariant
            i <= n,
            n == lv.len(),
            lines@.len() == lv.len(),
            forall|q: int| 0 <= q < lv.len() ==> lines@[q]@ == lv[q],
            file_wide_suppression(lv, 0) == file_wide_suppression(lv, i as int),
        ensures
            file_wide == file_wide_suppression(lv, 0),
        decreases n - i,
    {
        if i >= 5 || i >= n {
            break;
        }
        let line = lines[i].as_str();
        let t = trim_exec(line);
        let tn = str_len(t);
        if tn == 0 {
            i = i + 1;
            continue;
        }
        proof {
            reveal_strlit("#");
            reveal_strlit("\"\"\"");
            reveal_strlit("PL004");
        }
        if !starts_with_exec(t, "#") && !starts_with_exec(t, "\"\"\"") {
            break;
        }
        let rules = parse_noqa_rules(line);
        if vec_contains_str(&rules, "PL004") && i < 3 {
            file_wide = true;
            break;
        }
        i = i + 1;
    }
    if file_wide {
        return SuppressionSet { file_wide: true, line_rules: Vec::new() };
    }
    let mut line_rules: Vec<(usize, String)> = Vec::new();
    let mut i2: usize = 0;
    while i2 < n
        invariant
            i2 <= n,
            n == lv.len(),
            lines@.len() == lv.len(),
            forall|q: int| 0 <= q < lv.len() ==> lines@[q]@ == lv[q],
            pair_views(line_rules@) == line_rules_upto(lv, i2 as int),
        decreases n - i2,
    {
        let rules = parse_noqa_rules(lines[i2].as_str());
        let ghost rv = noqa_rules_of(lv[i2 as int]);
        let m = rules.len();
        let mut j: usize = 0;
        while j < m
            invariant
                j <= m,
                i2 < n,
                n == lv.len(),
                m == rules@.len(),
                rv.len() == m,
                forall|q: int| 0 <= q < rv.len() ==> rules@[q]@ == rv[q],
                pair_views(line_rules@) == line_rules_upto(lv, i2 as int) + tag_rules(
                    rv,
                    i2 + 1,
                ).subrange(0, j as int),
            decreases m - j,
        {
            let ghost old_lr = line_rules@;
            let cloned = rules[j].clone();
            proof {
                assert(cloned@ == rv[j as int]);
            }
            line_rules.push((i2 + 1, cloned));
            proof {
                assert(pair_views(line_rules@) =~= pair_views(old_lr).push(
                    (i2 + 1, rv[j as int]),
                ));
                let tags = tag_rules(rv, i2 + 1);
                assert(tags[j as int] == (i2 + 1 as int, rv[j as int]));
                assert(tags.subrange(0, j + 1) =~= tags.subrange(0, j as int).push(
                    tags[j as int],
                ));
                assert(pair_views(line_rules@) =~= line_rules_upto(lv, i2 as int) + tags.subrange(
                    0,
                    j + 1,
                ));
            }
            j = j + 1;
        }
        proof {
            assert(tag_rules(rv, i2 + 1).subrange(0, rv.len() as int) =~= tag_rules(rv, i2 + 1));
            assert(pair_views(line_rules@) =~= line_rules_upto(lv, i2 + 1));
        }
        i2 = i2 + 1;
    }
    SuppressionSet { file_wide: false, line_rules }
}

/// Whether a line-scoped exemption for a rule is recorded.
pub fn has_line_rule(set: &SuppressionSet, ln: usize, rule: &str) -> (r: bool)
    ensures
        r == line_suppressed(pair_views(set.line_rules@), ln as int, rule@),
{
    let n = set.line_rules.len();
    let mut i: usize = 0;
    let mut found = false;
    loop
        invariant
            i <= n,
            n == set.line_rules@.len(),
            found ==> line_suppressed(pair_views(set.line_rules@), ln as int, rule@),
            !found ==> forall|q: int|
                0 <= q < i ==> pair_views(set.line_rules@)[q] != (ln as int, rule@),
        ensures
            found == line_suppressed(pair_views(set.line_rules@), ln as int, rule@),
        decreases n - i,
    {
        if i >= n {
            break;
        }
        let entry_line = set.line_rules[i].0;
        if entry_line == ln && str_eq(set.line_rules[i].1.as_str(), rule) {
            found = true;
            proof {
                assert(pair_views(set.line_rules@)[i as int] == (ln as int, rule@));
            }
            break;
        }
        proof {
            assert(pair_views(set.line_rules@)[i as int] != (ln as int, rule@));
        }
        i = i + 1;
    }
    found
}

/// The violation reported for a test function missing its marker, with
/// a fix descriptor inserting the decorator on the line above.
pub open spec fn marker_violation(
    path: Seq<char>,
    func: TestFunctionView,
    marker: Seq<char>,
) -> ViolationView {
    ViolationView {
        rule_name: "PL004:require-test-markers"@,
        file_path: path,
        line_number: func.line_number,
        function_name: func.name,
        message: "[PL004] Test function '"@ + func.name
            + "' is missing required pytest marker.\nExpected: @pytest.mark."@ + marker
            + "\nLocation: "@ + path
            + "\n\nTip: Use --fix flag to automatically add missing markers"@,
        severity: "error"@,
        fix_type: Some("add_decorator"@),
        fix_content: Some("@pytest.mark."@ + marker),
        fix_line: Some(
            if func.line_number > 1 {
                func.line_number - 1
            } else {
                1
            },
        ),
    }
}

/// Build the violation for a missing marker (see [`marker_violation`]).
pub fn create_violation(file_path: &str, func: &TestFunction, expected_marker: &str) -> (r:
    LintViolation)
    ensures
        r@ == marker_violation(file_path@, func@, expected_marker@),
{
    let fix_line = if func.line_number > 1 {
        func.line_number - 1
    } else {
        1
    };
    let mut message = String::from_str("[PL004] Test function '");
    message.append(func.name.as_str());
    message.append("' is missing required pytest marker.\nExpected: @pytest.mark.");
    message.append(expected_marker);
    message.append("\nLocation: ");
    message.append(file_path);
    message.append("\n\nTip: Use --fix flag to automatically add missing markers");
    let mut fix_content = String::from_str("@pytest.mark.");
    fix_content.append(expected_marker);
    let r = LintViolation {
        rule_name: String::from_str("PL004:require-test-markers"),
        file_path: String::from_str(file_path),
        line_number: func.line_number,
        function_name: func.name.clone(),
        message,
        severity: String::from_str("error"),
        fix_type: Some(String::from_str("add_decorator")),
        fix_content: Some(fix_content),
        fix_line: Some(fix_line),
    };
    proof {
        assert(r@.message =~= marker_violation(file_path@, func@, expected_marker@).message);
        assert(r@.fix_content->0 =~= marker_violation(
            file_path@,
            func@,
            expected_marker@,
        ).fix_content->0);
    }
    r
}

/// The outcome of the marker check on one test function: skipped when
/// its inferred target is private or non-public, when the line carries
/// a suppression, or when a matching marker is present; a violation
/// otherwise.
pub open spec fn checked_function(
    func: TestFunctionView,
    path: Seq<char>,
    api: Option<Seq<Seq<char>>>,
    marker: Seq<char>,
    entries: Seq<(int, Seq<char>)>,
) -> Option<ViolationView> {
    let tested = inferred_target(func.name);
    if tested is Some && !target_checked(tested->0, api) {
        None
    } else if line_suppressed(entries, func.line_number, "PL004"@) {
        None
    } else if has_marker(func, marker) {
        None
    } else {
        Some(marker_violation(path, func, marker))
    }
}

/// The marker violations of the first `i` test functions.
pub open spec fn marker_violations_upto(
    funcs: Seq<TestFunctionView>,
    i: int,
    path: Seq<char>,
    api: Option<Seq<Seq<char>>>,
    marker: Seq<char>,
    entries: Seq<(int, Seq<char>)>,
) -> Seq<ViolationView>
    decreases i,
{
    if i <= 0 {
        Seq::empty()
    } else {
        let prev = marker_violations_upto(funcs, i - 1, path, api, marker, entries);
        match checked_function(funcs[i - 1], path, api, marker, entries) {
            Some(v) => prev.push(v),
            None => prev,
        }
    }
}

/// The marker violations of one test file: none when the file is
/// outside a recognised tier directory or suppresses the rule
/// file-wide; otherwise each of its test functions is checked against
/// the tier's marker, under the public surface of its source module.
pub open spec fn check_file_spec(
    path: Seq<char>,
    content: Seq<char>,
    source_content: Option<Seq<char>>,
) -> Seq<ViolationView> {
    if file_wide_suppression(lines_of(content), 0) {
        Seq::empty()
    } else {
        match marker_of_path(path) {
            None => Seq::empty(),
            Some(marker) => {
                let api = match source_content {
                    Some(s) => module_all_spec(s),
                    None => None,
                };
                let funcs = test_functions_of(content);
                marker_violations_upto(
                    funcs,
                    funcs.len() as int,
                    path,
                    api,
                    marker,
                    line_rules_upto(lines_of(content), lines_of(content).len() as int),
                )
            },
        }
    }
}

/// Check one test file for missing pytest markers (see
/// [`check_file_spec`]).
pub fn check_file(file_path: &str, content: &str, source_content: Option<&str>) -> (r: Vec<
    LintViolation,
>)
    ensures
        vio_views(r@) == check_file_spec(
            file_path@,
            content@,
            match source_content {
                Some(s) => Some(s@),
                None => None,
            },
        ),
{
    let noqa = extract_file_noqa_rules(content);
    if noqa.file_wide {
        let r: Vec<LintViolation> = Vec::new();
        proof {
            assert(vio_views(r@) =~= check_file_spec(
                file_path@,
                content@,
                match source_content {
                    Some(s) => Some(s@),
                    None => None,
                },
            ));
        }
        return r;
    }
    let expected_marker = match get_test_type_from_path(file_path) {
        Some(m) => m,
        None => {
            let r: Vec<LintViolation> = Vec::new();
            proof {
                assert(vio_views(r@) =~= check_file_spec(
                    file_path@,
                    content@,
                    match source_content {
                        Some(s) => Some(s@),
                        None => None,
                    },
                ));
            }
            return r;
        },
    };
    let test_functions = extract_test_functions(content);
    let public_api = match source_content {
        Some(s) => extract_module_all(s),
        None => PublicApi::default(),
    };
    let ghost apiv = public_api@;
    let ghost markerv = expected_marker@;
    let ghost entriesv = pair_views(noqa.line_rules@);
    let ghost fv = test_functions_of(content@);
    let n = test_functions.len();
    let mut violations: Vec<LintViolation> = Vec::new();
    let mut i: usize = 0;
    while i < n
        invariant
            i <= n,
            n == fv.len(),
            test_functions@.len() == fv.len(),
            forall|q: int| 0 <= q < fv.len() ==> test_functions@[q]@ == fv[q],
            apiv == public_api@,
            markerv == expected_marker@,
            entriesv == pair_views(noqa.line_rules@),
            vio_views(violations@) == marker_violations_upto(
                fv,
                i as int,
                file_path@,
                apiv,
                markerv,
                entriesv,
            ),
        decreases n - i,
    {
        let func = &test_functions[i];
        let mut skip = false;
        let tested_func = infer_tested_function(func.name.as_str());
        match &tested_func {
            Some(tested) => {
                if !should_check_test_for_function(tested.as_str(), &public_api) {
                    skip = true;
                }
            },
            None => {},
        }
        if !skip {
            proof {
                reveal_strlit("PL004");
            }
            let line_noqa = has_line_rule(&noqa, func.line_number, "PL004");
            if line_noqa || has_pytest_marker(func, expected_marker.as_str()) {
                skip = true;
            } else {
                let ghost old_vs = violations@;
                let v = create_violation(file_path, func, expected_marker.as_str());
                let ghost vv = v@;
                violations.push(v);
                proof {
                    assert(checked_function(fv[i as int], file_path@, apiv, markerv, entriesv)
                        == Some(vv));
                    assert(vio_views(violations@) =~= vio_views(old_vs).push(vv));
                    assert(vio_views(violations@) =~= marker_violations_upto(
                        fv,
                        i + 1,
                        file_path@,
                        apiv,
                        markerv,
                        entriesv,
                    ));
                }
            }
        }
        if skip {
            proof {
                assert(checked_function(fv[i as int], file_path@, apiv, markerv, entriesv)
                    is None);
                assert(vio_views(violations@) =~= marker_violations_upto(
                    fv,
                    i + 1,
                    file_path@,
                    apiv,
                    markerv,
                    entriesv,
                ));
            }
        }
        i = i + 1;
    }
    proof {
        assert(vio_views(violations@) == check_file_spec(
            file_path@,
            content@,
            match source_content {
                Some(s) => Some(s@),
                None => None,
            },
        ));
    }
    violations
}

/// A file name the marker pass looks at: the test prefix or suffix.
pub open spec fn is_test_file_name(name: Seq<char>) -> bool {
    starts_with_seq(name, "test_"@) || crate::text::ends_with_seq(name, "_test.py"@)
}

/// Executable counterpart of [`is_test_file_name`].
pub fn test_file_name_check(name: &str) -> (r: bool)
    ensures
        r == is_test_file_name(name@),
{
    proof {
        reveal_strlit("test_");
        reveal_strlit("_test.py");
    }
    starts_with_exec(name, "test_") || crate::text::ends_with_exec(name, "_test.py")
}

/// The source file name a test file's name refers to: the `test_`
/// prefix or `_test` suffix removed.
pub open spec fn source_name_for_test(name: Seq<char>) -> Option<Seq<char>> {
    if starts_with_seq(name, "test_"@) && crate::text::ends_with_seq(name, ".py"@) && name.len()
        >= 8 {
        Some(name.subrange(5, name.len() - 3) + ".py"@)
    } else if crate::text::ends_with_seq(name, "_test.py"@) {
        Some(name.subrange(0, name.len() - 8) + ".py"@)
    } else {
        None
    }
}

/// Derive the source file name a test file targets (see
/// [`source_name_for_test`]).
pub fn source_file_name_for_test(test_file_name: &str) -> (r: Option<String>)
    ensures
        match r {
            Some(s) => source_name_for_test(test_file_name@) == Some(s@),
            None => source_name_for_test(test_file_name@) is None,
        },
{
    let n = str_len(test_file_name);
    proof {
        reveal_strlit("test_");
        reveal_strlit(".py");
        reveal_strlit("_test.py");
    }
    if starts_with_exec(test_file_name, "test_") && crate::text::ends_with_exec(
        test_file_name,
        ".py",
    ) && n >= 8 {
        let mid = test_file_name.substring_char(5, n - 3);
        let mut s = String::from_str(mid);
        s.append(".py");
        Some(s)
    } else if crate::text::ends_with_exec(test_file_name, "_test.py") {
        let stem = test_file_name.substring_char(0, n - 8);
        let mut s = String::from_str(stem);
        s.append(".py");
        Some(s)
    } else {
        None
    }
}

/// A test file handed to the marker pass: its path, its text, and the
/// text of the source module it targets, where one was found.
pub struct MarkerFileInput {
    pub path: String,
    pub content: String,
    pub source_content: Option<String>,
}

impl View for MarkerFileInput {
    type V = (Seq<char>, Seq<char>, Option<Seq<char>>);

    open spec fn view(&self) -> (Seq<char>, Seq<char>, Option<Seq<char>>) {
        (
            self.path@,
            self.content@,
            match self.source_content {
                Some(ref s) => Some(s@),
                None => None,
            },
        )
    }
}

/// The views of a list of marker-pass inputs.
pub open spec fn marker_file_views(files: Seq<MarkerFileInput>) -> Seq<
    (Seq<char>, Seq<char>, Option<Seq<char>>),
> {
    Seq::new(files.len(), |i: int| files[i]@)
}

/// The marker violations of the first `i` files; files whose names lack
/// the test prefix and suffix are skipped.
pub open spec fn check_files_upto(
    files: Seq<(Seq<char>, Seq<char>, Option<Seq<char>>)>,
    i: int,
) -> Seq<ViolationView>
    decreases i,
{
    if i <= 0 {
        Seq::empty()
    } else {
        let prev = check_files_upto(files, i - 1);
        let f = files[i - 1];
        if is_test_file_name(crate::paths::file_name_of(f.0)) {
            prev + check_file_spec(f.0, f.1, f.2)
        } else {
            prev
        }
    }
}

/// Check every given test file for missing pytest markers.
pub fn check_test_markers(files: &Vec<MarkerFileInput>) -> (r: Vec<LintViolation>)
    ensures
        vio_views(r@) == check_files_upto(marker_file_views(files@), files@.len() as int),
{
    let ghost fv = marker_file_views(files@);
    let n = files.len();
    let mut violations: Vec<LintViolation> = Vec::new();
    let mut i: usize = 0;
    while i < n
        invariant
            i <= n,
            n == files@.len(),
            fv == marker_file_views(files@),
            vio_views(violations@) == check_files_upto(fv, i as int),
        decreases n - i,
    {
        let f = &files[i];
        let name = crate::paths::file_name(f.path.as_str());
        if test_file_name_check(name) {
            let source: Option<&str> = match &f.source_content {
                Some(s) => Some(s.as_str()),
                None => None,
            };
            let ghost old_vs = violations@;
            let mut file_violations = check_file(f.path.as_str(), f.content.as_str(), source);
            let ghost fvv = vio_views(file_violations@);
            violations.append(&mut file_violations);
            proof {
                assert(vio_views(violations@) =~= vio_views(old_vs) + fvv);
                assert(vio_views(violations@) =~= check_files_upto(fv, i + 1));
            }
        } else {
            proof {
                assert(vio_views(violations@) =~= check_files_upto(fv, i + 1));
            }
        }
        i = i + 1;
    }
    violations
}

} // verus!

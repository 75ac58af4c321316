//! A test-coverage linter for Python source trees.
//!
//! The linter enforces directory-convention based rules: every qualifying
//! source function must have a discoverable test at the required tiers
//! (unit, integration, end-to-end), and test functions must carry the
//! pytest marker matching their tier.  All analysis is structural text
//! scanning; nothing is executed or imported.

use vstd::prelude::*;

pub mod file_discovery;
pub mod git;
pub mod markers;
pub mod models;
pub mod noqa;
pub mod paths;
pub mod public_api;
pub mod rules;
pub mod scan;
pub mod test_cache;
pub mod test_discovery;
pub mod text;

use crate::models::{vio_views, LintViolation, ViolationView};
use crate::paths::{get_module_path, module_path_of};
use crate::rules::{rule_check, LintRule, RuleContext};
use crate::scan::{class_line_parse, def_line_parse, is_blank_line, starts_indented};
use crate::scan::{blank_line_check, parse_class_line, parse_def_line, starts_indented_check};
use crate::test_cache::{TestCache, TestFileView};
use crate::text::{contains_seq, lines_of, views_of};
use crate::text::{contains_exec, split_lines};

verus! {

/// The violations of the first `j` rules on one source function, in
/// rule-registration order.
pub open spec fn rule_violations_upto(
    rules: Seq<LintRule>,
    j: int,
    f: Seq<char>,
    path: Seq<char>,
    line_number: int,
    line: Seq<char>,
    c: Option<Seq<char>>,
    is_protocol: bool,
    cache: Seq<TestFileView>,
    mod_path: Seq<char>,
    root: Seq<char>,
) -> Seq<ViolationView>
    decreases j,
{
    if j <= 0 {
        Seq::empty()
    } else {
        let prev = rule_violations_upto(
            rules,
            j - 1,
            f,
            path,
            line_number,
            line,
            c,
            is_protocol,
            cache,
            mod_path,
            root,
        );
        match rule_check(
            rules[j - 1],
            f,
            path,
            line_number,
            line,
            c,
            is_protocol,
            cache,
            mod_path,
            root,
        ) {
            Some(v) => prev.push(v),
            None => prev,
        }
    }
}

/// The class-scope tracker's state before line `i`: the enclosing class
/// name and its protocol-likeness, if any.  A class line opens a scope;
/// a non-blank unindented line that is not itself a definition closes
/// it.
pub open spec fn class_state_at(lines: Seq<Seq<char>>, i: int) -> Option<(Seq<char>, bool)>
    decreases i,
{
    if i <= 0 {
        None
    } else {
        let prev = class_state_at(lines, i - 1);
        let line = lines[i - 1];
        match class_line_parse(line) {
            Some(p) => Some((p.1, contains_seq(line, "Protocol"@))),
            None => {
                if prev is Some && !is_blank_line(line) && !starts_indented(line)
                    && def_line_parse(line) is None {
                    None
                } else {
                    prev
                }
            },
        }
    }
}

/// The violations produced by line `i`: none unless it is a function
/// definition; for one, every rule runs in order.  A definition is a
/// method when a class scope is open and the definition is indented.
pub open spec fn line_violations(
    lines: Seq<Seq<char>>,
    i: int,
    rules: Seq<LintRule>,
    path: Seq<char>,
    cache: Seq<TestFileView>,
    mod_path: Seq<char>,
    root: Seq<char>,
) -> Seq<ViolationView> {
    let line = lines[i];
    let cls = class_state_at(lines, i);
    if class_line_parse(line) is Some {
        Seq::empty()
    } else {
        match def_line_parse(line) {
            Some(p) => {
                let mc = match cls {
                    Some(cp) => if p.0 > 0 {
                        Some(cp)
                    } else {
                        None
                    },
                    None => None,
                };
                let c = match mc {
                    Some(cp) => Some(cp.0),
                    None => None,
                };
                let is_protocol_method = match mc {
                    Some(cp) => cp.1,
                    None => false,
                };
                rule_violations_upto(
                    rules,
                    rules.len() as int,
                    p.1,
                    path,
                    i + 1,
                    line,
                    c,
                    is_protocol_method,
                    cache,
                    mod_path,
                    root,
                )
            },
            None => Seq::empty(),
        }
    }
}

/// All violations of the first `i` lines, in source order.
pub open spec fn lint_upto(
    lines: Seq<Seq<char>>,
    i: int,
    rules: Seq<LintRule>,
    path: Seq<char>,
    cache: Seq<TestFileView>,
    mod_path: Seq<char>,
    root: Seq<char>,
) -> Seq<ViolationView>
    decreases i,
{
    if i <= 0 {
        Seq::empty()
    } else {
        lint_upto(lines, i - 1, rules, path, cache, mod_path, root) + line_violations(
            lines,
            i - 1,
            rules,
            path,
            cache,
            mod_path,
            root,
        )
    }
}

/// The violations of one file's text: every line scanned under the
/// class tracker, every definition checked by every rule, with the
/// file's module path derived from its location under the project root.
pub open spec fn lint_file_spec(
    path: Seq<char>,
    content: Seq<char>,
    rules: Seq<LintRule>,
    cache: Seq<TestFileView>,
    root: Seq<char>,
) -> Seq<ViolationView> {
    let lines = lines_of(content);
    lint_upto(
        lines,
        lines.len() as int,
        rules,
        path,
        cache,
        module_path_of(path, root),
        root,
    )
}

/// Idempotence of a lint run: the violations of a file are a function
/// of its text and the shared cache alone, so two runs over unchanged
/// inputs yield the same list.
pub proof fn lemma_lint_idempotent(
    v1: Seq<ViolationView>,
    v2: Seq<ViolationView>,
    path: Seq<char>,
    content: Seq<char>,
    rules: Seq<LintRule>,
    cache: Seq<TestFileView>,
    root: Seq<char>,
)
    requires
        v1 == lint_file_spec(path, content, rules, cache, root),
        v2 == lint_file_spec(path, content, rules, cache, root),
    ensures
        v1 == v2,
{
}

/// The linter's configuration: the test directory names, the test file
/// patterns, and the exclusion globs.
pub struct RustLinter {
    pub test_directories: Vec<String>,
    pub test_patterns: Vec<String>,
    pub exclude_patterns: Vec<String>,
}

impl RustLinter {
    /// A linter from optional configuration; absent values take the
    /// conventional defaults.
    pub fn new(
        test_directories: Option<Vec<String>>,
        test_patterns: Option<Vec<String>>,
        exclude_patterns: Option<Vec<String>>,
    ) -> (r: Self)
        ensures
            match test_directories {
                Some(v) => r.test_directories == v,
                None => views_of(r.test_directories@) =~= seq!["test"@, "tests"@],
            },
            match test_patterns {
                Some(v) => r.test_patterns == v,
                None => views_of(r.test_patterns@) =~= seq!["test_*.py"@, "*_test.py"@],
            },
            match exclude_patterns {
                Some(v) => r.exclude_patterns == v,
                None => r.exclude_patterns@.len() == 0,
            },
    {
        let dirs = match test_directories {
            Some(v) => v,
            None => {
                let mut v: Vec<String> = Vec::new();
                v.push(String::from_str("test"));
                v.push(String::from_str("tests"));
                v
            },
        };
        let pats = match test_patterns {
            Some(v) => v,
            None => {
                let mut v: Vec<String> = Vec::new();
                v.push(String::from_str("test_*.py"));
                v.push(String::from_str("*_test.py"));
                v
            },
        };
        let excl = match exclude_patterns {
            Some(v) => v,
            None => Vec::new(),
        };
        RustLinter { test_directories: dirs, test_patterns: pats, exclude_patterns: excl }
    }

    /// Lint one file's text against every rule, consulting the shared
    /// test cache (see [`lint_file_spec`]).
    pub fn lint_file_internal_with_cache(
        &self,
        path: &str,
        content: &str,
        rules: &Vec<LintRule>,
        test_cache: &TestCache,
        project_root: &str,
    ) -> (r: Vec<LintViolation>)
        ensures
            vio_views(r@) == lint_file_spec(
                path@,
                content@,
                rules@,
                test_cache@,
                project_root@,
            ),
    {
        let lines = split_lines(content);
        let mod_path = get_module_path(path, project_root);
        let ghost lv = lines_of(content@);
        let ghost mpv = module_path_of(path@, project_root@);
        let context = RuleContext {
            test_directories: &self.test_directories,
            test_cache,
            mod_path: mod_path.as_str(),
            project_root,
        };
        let n = lines.len();
        let mut violations: Vec<LintViolation> = Vec::new();
        let mut current_class: Option<(String, bool)> = None;
        let mut i: usize = 0;
        while i < n
            invariant
                i <= n,
                n == lv.len(),
                lines@.len() == lv.len(),
                forall|q: int| 0 <= q < lv.len() ==> lines@[q]@ == lv[q],
                mod_path@ == mpv,
                context.test_cache == test_cache,
                context.mod_path@ == mpv,
                context.project_root@ == project_root@,
                (match current_class {
                    Some(p) => Some((p.0@, p.1)),
                    None => None,
                }) == class_state_at(lv, i as int),
                vio_views(violations@) == lint_upto(
                    lv,
                    i as int,
                    rules@,
                    path@,
                    test_cache@,
                    mpv,
                    project_root@,
                ),
            decreases n - i,
        {
            let line = lines[i].as_str();
            let ghost cls = class_state_at(lv, i as int);
            match parse_class_line(line) {
                Some(p) => {
                    let (_indent, name) = p;
                    let proto = contains_exec(line, "Protocol");
                    current_class = Some((name, proto));
                    proof {
                        assert(line_violations(lv, i as int, rules@, path@, test_cache@, mpv,
                        project_root@) =~= Seq::<ViolationView>::empty());
                        assert(vio_views(violations@) =~= lint_upto(
                            lv,
                            i + 1,
                            rules@,
                            path@,
                            test_cache@,
                            mpv,
                            project_root@,
                        ));
                    }
                },
                None => {
                    match parse_def_line(line) {
                        Some(p) => {
                            let (indent, fname) = p;
                            let (class_opt, is_protocol_method): (Option<&str>, bool) = match &current_class {
                                Some(cp) => {
                                    if indent > 0 {
                                        (Some(cp.0.as_str()), cp.1)
                                    } else {
                                        (None, false)
                                    }
                                },
                                None => (None, false),
                            };
                            let ghost cvv = match class_opt {
                                Some(c) => Some(c@),
                                None => None,
                            };
                            let m = rules.len();
                            let mut j: usize = 0;
                            while j < m
                                invariant
                                    j <= m,
                                    m == rules@.len(),
                                    n == lv.len(),
                                    i < n,
                                    lines@.len() == lv.len(),
                                    forall|q: int| 0 <= q < lv.len() ==> lines@[q]@ == lv[q],
                                    line@ == lv[i as int],
                                    def_line_parse(lv[i as int]) matches Some(dp) && dp.1
                                        == fname@ && (dp.0 > 0) == (indent > 0),
                                    context.test_cache == test_cache,
                                    context.mod_path@ == mpv,
                                    context.project_root@ == project_root@,
                                    cvv == (match class_opt {
                                        Some(c) => Some(c@),
                                        None => None,
                                    }),
                                    vio_views(violations@) == lint_upto(
                                        lv,
                                        i as int,
                                        rules@,
                                        path@,
                                        test_cache@,
                                        mpv,
                                        project_root@,
                                    ) + rule_violations_upto(
                                        rules@,
                                        j as int,
                                        fname@,
                                        path@,
                                        i + 1,
                                        line@,
                                        cvv,
                                        is_protocol_method,
                                        test_cache@,
                                        mpv,
                                        project_root@,
                                    ),
                                decreases m - j,
                            {
                                let res = rules[j].check_function(
                                    fname.as_str(),
                                    path,
                                    i + 1,
                                    line,
                                    class_opt,
                                    is_protocol_method,
                                    &context,
                                );
                                let ghost old_vs = violations@;
                                let ghost res_v = match &res {
                                    Some(v) => Some(v@),
                                    None => None,
                                };
                                match res {
                                    Some(v) => {
                                        proof {
                                            assert(rule_check(rules@[j as int], fname@, path@,
                                            i + 1, line@, cvv, is_protocol_method, test_cache@,
                                            mpv, project_root@) == Some(v@));
                                        }
                                        violations.push(v);
                                        proof {
                                            assert(vio_views(violations@) =~= vio_views(
                                                old_vs,
                                            ).push(res_v->0));
                                        }
                                    },
                                    None => {
                                        proof {
                                            assert(rule_check(rules@[j as int], fname@, path@,
                                            i + 1, line@, cvv, is_protocol_method, test_cache@,
                                            mpv, project_root@) is None);
                                        }
                                    },
                                }
                                proof {
                                    let prevv = rule_violations_upto(
                                        rules@,
                                        j as int,
                                        fname@,
                                        path@,
                                        i + 1,
                                        line@,
                                        cvv,
                                        is_protocol_method,
                                        test_cache@,
                                        mpv,
                                        project_root@,
                                    );
                                    let nextv = rule_violations_upto(
                                        rules@,
                                        j + 1,
                                        fname@,
                                        path@,
                                        i + 1,
                                        line@,
                                        cvv,
                                        is_protocol_method,
                                        test_cache@,
                                        mpv,
                                        project_root@,
                                    );
                                    assert(nextv == (match rule_check(
                                        rules@[j as int],
                                        fname@,
                                        path@,
                                        i + 1,
                                        line@,
                                        cvv,
                                        is_protocol_method,
                                        test_cache@,
                                        mpv,
                                        project_root@,
                                    ) {
                                        Some(v2) => prevv.push(v2),
                                        None => prevv,
                                    }));
                                    let base = lint_upto(
                                        lv,
                                        i as int,
                                        rules@,
                                        path@,
                                        test_cache@,
                                        mpv,
                                        project_root@,
                                    );
                                    if res_v is Some {
                                        assert(nextv == prevv.push(res_v->0));
                                        assert((base + prevv).push(res_v->0) =~= base
                                            + prevv.push(res_v->0));
                                        assert(vio_views(violations@) =~= base + nextv);
                                    } else {
                                        assert(vio_views(violations@) =~= base + nextv);
                                    }
                                }
                                j = j + 1;
                            }
                            proof {
                                assert(line_violations(lv, i as int, rules@, path@, test_cache@,
                                mpv, project_root@) =~= rule_violations_upto(
                                    rules@,
                                    rules@.len() as int,
                                    fname@,
                                    path@,
                                    i + 1,
                                    line@,
                                    cvv,
                                    is_protocol_method,
                                    test_cache@,
                                    mpv,
                                    project_root@,
                                ));
                                assert(vio_views(violations@) =~= lint_upto(
                                    lv,
                                    i + 1,
                                    rules@,
                                    path@,
                                    test_cache@,
                                    mpv,
                                    project_root@,
                                ));
                            }
                        },
                        None => {
                            proof {
                                assert(line_violations(lv, i as int, rules@, path@, test_cache@,
                                mpv, project_root@) =~= Seq::<ViolationView>::empty());
                                assert(vio_views(violations@) =~= lint_upto(
                                    lv,
                                    i + 1,
                                    rules@,
                                    path@,
                                    test_cache@,
                                    mpv,
                                    project_root@,
                                ));
                            }
                            if current_class.is_some() && !blank_line_check(line)
                                && !starts_indented_check(line) {
                                current_class = None;
                            }
                        },
                    }
                },
            }
            i = i + 1;
        }
        proof {
            assert(vio_views(violations@) == lint_file_spec(
                path@,
                content@,
                rules@,
                test_cache@,
                project_root@,
            ));
        }
        violations
    }
}

} // verus!

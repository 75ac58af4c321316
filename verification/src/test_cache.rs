//! The test-tier cache: an index of every discovered test file, its tier
//! (derived from its directory path) and the set of test-function names it
//! defines, together with the generator of canonical and acceptable test
//! names for a source function.

use vstd::prelude::*;

use crate::paths::{
    file_name_of, file_stem_of, join_path, parent_of, push_segs, seg_suffix, segments_of,
};
use crate::paths::{file_name, file_stem, join_path_exec, parent_dir, segments, segments_end_with};
use crate::scan::def_line_parse;
use crate::scan::parse_def_line;
use crate::text::{
    contains_seq, ends_with_seq, lex_lt, lines_of, lower_seq, seq_has, split_seq,
    starts_with_seq, views_of,
};
use crate::text::{lemma_seq_has_insert, lemma_seq_has_push};
use crate::text::{
    contains_exec, ends_with_exec, split_char, split_lines, starts_with_exec, str_len,
    to_lowercase_ascii, vec_contains_str,
};

verus! {

/// Classification of a test file by the tier directory it lies in.
#[derive(Debug, Clone, Copy, PartialEq, Eq, Hash, Structural)]
pub enum TestType {
    Unit,
    Integration,
    E2E,
    General,
}

/// Tier of a path: the first of `e2e`, `integration`, `unit` appearing as
/// a path segment (either separator style), `General` when none does.
pub open spec fn test_type_of_path(p: Seq<char>) -> TestType {
    if contains_seq(p, "/e2e/"@) || contains_seq(p, "\\e2e\\"@) {
        TestType::E2E
    } else if contains_seq(p, "/integration/"@) || contains_seq(p, "\\integration\\"@) {
        TestType::Integration
    } else if contains_seq(p, "/unit/"@) || contains_seq(p, "\\unit\\"@) {
        TestType::Unit
    } else {
        TestType::General
    }
}

/// The word naming a tier.
pub open spec fn tier_word(t: TestType) -> Seq<char> {
    match t {
        TestType::Unit => "unit"@,
        TestType::Integration => "integration"@,
        TestType::E2E => "e2e"@,
        TestType::General => "general"@,
    }
}

impl TestType {
    /// Classify a test file by its path.
    pub fn from_path(path: &str) -> (r: Self)
        ensures
            r == test_type_of_path(path@),
    {
        if contains_exec(path, "/e2e/") || contains_exec(path, "\\e2e\\") {
            TestType::E2E
        } else if contains_exec(path, "/integration/") || contains_exec(path, "\\integration\\") {
            TestType::Integration
        } else if contains_exec(path, "/unit/") || contains_exec(path, "\\unit\\") {
            TestType::Unit
        } else {
            TestType::General
        }
    }

    /// The word naming this tier.
    pub fn as_str(&self) -> (r: &'static str)
        ensures
            r@ == tier_word(*self),
    {
        match self {
            TestType::Unit => "unit",
            TestType::Integration => "integration",
            TestType::E2E => "e2e",
            TestType::General => "general",
        }
    }
}

/// Mathematical image of one cached test file.
pub ghost struct TestFileView {
    pub path: Seq<char>,
    pub tier: TestType,
    pub functions: Seq<Seq<char>>,
}

/// One entry of the cache: a test file, its tier, and the distinct
/// function names it defines (in first-definition order).
pub struct TestFileRecord {
    pub path: String,
    pub test_type: TestType,
    pub functions: Vec<String>,
}

impl View for TestFileRecord {
    type V = TestFileView;

    open spec fn view(&self) -> TestFileView {
        TestFileView {
            path: self.path@,
            tier: self.test_type,
            functions: views_of(self.functions@),
        }
    }
}

/// Cache of test files, built once per linting run and read-only after.
pub struct TestCache {
    pub test_files: Vec<TestFileRecord>,
}

impl View for TestCache {
    type V = Seq<TestFileView>;

    open spec fn view(&self) -> Seq<TestFileView> {
        Seq::new(self.test_files@.len(), |i: int| self.test_files@[i]@)
    }
}

/// The distinct function names defined on the first `i` lines, in
/// first-definition order.
pub open spec fn def_names_upto(lines: Seq<Seq<char>>, i: int) -> Seq<Seq<char>>
    decreases i,
{
    if i <= 0 {
        Seq::empty()
    } else {
        let prev = def_names_upto(lines, i - 1);
        match def_line_parse(lines[i - 1]) {
            Some(p) => {
                if seq_has(prev, p.1) {
                    prev
                } else {
                    prev.push(p.1)
                }
            },
            None => prev,
        }
    }
}

/// The distinct function names a file's text defines.
pub open spec fn def_names(content: Seq<char>) -> Seq<Seq<char>> {
    def_names_upto(lines_of(content), lines_of(content).len() as int)
}

/// Extract the distinct function names defined in a file's text.
pub fn extract_functions(content: &str) -> (r: Vec<String>)
    ensures
        views_of(r@) == def_names(content@),
{
    let lines = split_lines(content);
    let n = lines.len();
    let ghost lv = lines_of(content@);
    let mut out: Vec<String> = Vec::new();
    let mut i: usize = 0;
    while i < n
        invariant
            i <= n,
            n == lv.len(),
            lines@.len() == lv.len(),
            forall|j: int| 0 <= j < lv.len() ==> lines@[j]@ == lv[j],
            views_of(out@) == def_names_upto(lv, i as int),
        decreases n - i,
    {
        match parse_def_line(lines[i].as_str()) {
            Some(p) => {
                let (_indent, name) = p;
                if !vec_contains_str(&out, name.as_str()) {
                    out.push(name);
                    proof {
                        assert(views_of(out@) =~= def_names_upto(lv, i + 1));
                    }
                } else {
                    proof {
                        assert(views_of(out@) =~= def_names_upto(lv, i + 1));
                    }
                }
            },
            None => {
                proof {
                    assert(views_of(out@) =~= def_names_upto(lv, i + 1));
                }
            },
        }
        i = i + 1;
    }
    out
}

/// The single canonical expected test name: `test_<Class>_<function>` for
/// a method, `test_<function>` for a standalone function.  The tier does
/// not change the canonical form.
pub open spec fn canonical_pattern(f: Seq<char>, c: Option<Seq<char>>, t: TestType) -> Seq<char> {
    match c {
        Some(cl) => "test_"@ + cl + "_"@ + f,
        None => "test_"@ + f,
    }
}

/// The ranked list of acceptable test names for a function, an optional
/// owning class, and a tier.  Every list contains the canonical name
/// and the bare `test_<function>` last-resort fallback (see
/// [`lemma_acceptable_contains_canonical`]).
pub open spec fn acceptable_patterns(f: Seq<char>, c: Option<Seq<char>>, t: TestType) -> Seq<
    Seq<char>,
> {
    match c {
        Some(cl) => match t {
            TestType::Unit => seq![
                "test_"@ + cl + "_"@ + f,
                "test_"@ + lower_seq(cl) + "_"@ + f,
                "test_unit_"@ + cl + "_"@ + f,
                "test_"@ + f,
            ],
            TestType::Integration => seq![
                "test_integration_"@ + cl + "_"@ + f,
                "test_int_"@ + cl + "_"@ + f,
                "test_"@ + cl + "_"@ + f,
                "test_integration_"@ + f,
                "test_"@ + f,
            ],
            TestType::E2E => seq![
                "test_e2e_"@ + cl + "_"@ + f,
                "test_end_to_end_"@ + cl + "_"@ + f,
                "test_"@ + cl + "_"@ + f,
                "test_e2e_"@ + f,
                "test_"@ + f,
            ],
            TestType::General => seq![
                "test_"@ + cl + "_"@ + f,
                "test_"@ + lower_seq(cl) + "_"@ + f,
                "test_unit_"@ + cl + "_"@ + f,
                "test_integration_"@ + cl + "_"@ + f,
                "test_e2e_"@ + cl + "_"@ + f,
                "test_"@ + f,
            ],
        },
        None => match t {
            TestType::Unit => seq!["test_"@ + f, "test_unit_"@ + f],
            TestType::Integration => seq![
                "test_integration_"@ + f,
                "test_int_"@ + f,
                "test_"@ + f,
            ],
            TestType::E2E => seq!["test_e2e_"@ + f, "test_end_to_end_"@ + f, "test_"@ + f],
            TestType::General => seq![
                "test_"@ + f,
                "test_e2e_"@ + f,
                "test_integration_"@ + f,
                "test_unit_"@ + f,
            ],
        },
    }
}

/// The canonical name of a standalone function does not depend on the
/// tier and is always `test_` followed by the function name.
pub proof fn lemma_canonical_tier_independent(f: Seq<char>, t1: TestType, t2: TestType)
    ensures
        canonical_pattern(f, None, t1) == "test_"@ + f,
        canonical_pattern(f, None, t1) == canonical_pattern(f, None, t2),
{
}

/// The acceptable-name list always contains the canonical name and the
/// bare last-resort fallback `test_<function>`; the tiered lists also
/// carry their tier-prefixed fallback.
pub proof fn lemma_acceptable_contains_canonical(f: Seq<char>, c: Option<Seq<char>>, t: TestType)
    ensures
        seq_has(acceptable_patterns(f, c, t), canonical_pattern(f, c, t)),
        seq_has(acceptable_patterns(f, c, t), "test_"@ + f),
        t == TestType::Integration ==> seq_has(
            acceptable_patterns(f, c, t),
            "test_integration_"@ + f,
        ),
        t == TestType::E2E ==> seq_has(acceptable_patterns(f, c, t), "test_e2e_"@ + f),
{
    let pats = acceptable_patterns(f, c, t);
    match c {
        Some(cl) => {
            match t {
                TestType::Unit => {
                    assert(pats[0] == canonical_pattern(f, c, t));
                    assert(pats[3] == "test_"@ + f);
                },
                TestType::Integration => {
                    assert(pats[2] == canonical_pattern(f, c, t));
                    assert(pats[4] == "test_"@ + f);
                },
                TestType::E2E => {
                    assert(pats[2] == canonical_pattern(f, c, t));
                    assert(pats[4] == "test_"@ + f);
                },
                TestType::General => {
                    assert(pats[0] == canonical_pattern(f, c, t));
                    assert(pats[5] == "test_"@ + f);
                },
            }
        },
        None => {
            match t {
                TestType::Unit => {
                    assert(pats[0] == canonical_pattern(f, c, t));
                },
                TestType::Integration => {
                    assert(pats[2] == "test_"@ + f);
                    assert(pats[2] == canonical_pattern(f, c, t));
                },
                TestType::E2E => {
                    assert(pats[2] == "test_"@ + f);
                    assert(pats[2] == canonical_pattern(f, c, t));
                },
                TestType::General => {
                    assert(pats[0] == canonical_pattern(f, c, t));
                },
            }
        },
    }
}

/// The base test directory of a tier.
pub open spec fn tier_base_dir(t: TestType) -> Seq<char> {
    match t {
        TestType::Unit => "test/unit"@,
        TestType::Integration => "test/integration"@,
        TestType::E2E => "test/e2e"@,
        TestType::General => "test"@,
    }
}

/// The directory where a module's tests of a tier are expected: the
/// tier's base directory extended by every module-path part except the
/// last (the leaf becomes part of the file name, not a directory).
pub open spec fn expected_test_dir(mod_path: Seq<char>, t: TestType) -> Seq<char> {
    let parts = split_seq(mod_path, '.');
    if parts.len() > 1 {
        push_segs(tier_base_dir(t), parts, parts.len() - 1)
    } else {
        tier_base_dir(t)
    }
}

/// The absolute path where a module's test file of a tier is expected:
/// the expected directory under the project root, holding a `test_`
/// prefixed copy of the source file's name.
pub open spec fn expected_test_file(
    mod_path: Seq<char>,
    source_file_name: Seq<char>,
    t: TestType,
    root: Seq<char>,
) -> Seq<char> {
    let fname = if ends_with_seq(source_file_name, ".py"@) {
        "test_"@ + source_file_name
    } else {
        "test_"@ + source_file_name + ".py"@
    };
    join_path(join_path(root, expected_test_dir(mod_path, t)), fname)
}

/// A test file plausibly belongs to a module when its name contains the
/// module's base name or carries the test prefix.
pub open spec fn file_name_matches(file_name: Seq<char>, module_name: Seq<char>) -> bool {
    contains_seq(file_name, module_name) || starts_with_seq(file_name, "test_"@)
}

/// Some pattern of the list occurs among a file's function names.
pub open spec fn any_pattern_in(pats: Seq<Seq<char>>, funcs: Seq<Seq<char>>) -> bool {
    exists|i: int| 0 <= i < pats.len() && seq_has(funcs, pats[i])
}

/// One cached record satisfies the tier-blind query: its name matches
/// the module and it defines a name acceptable for its own tier.
pub open spec fn record_has_test(
    rec: TestFileView,
    f: Seq<char>,
    source_path: Seq<char>,
    c: Option<Seq<char>>,
) -> bool {
    file_name_matches(file_name_of(rec.path), file_stem_of(source_path)) && any_pattern_in(
        acceptable_patterns(f, c, rec.tier),
        rec.functions,
    )
}

/// Some cached record satisfies the tier-blind query.
pub open spec fn cache_has_test(
    records: Seq<TestFileView>,
    f: Seq<char>,
    source_path: Seq<char>,
    c: Option<Seq<char>>,
) -> bool {
    exists|i: int| 0 <= i < records.len() && record_has_test(records[i], f, source_path, c)
}

/// A record participates in a tiered query when its tier is the
/// requested one, or `General` (an unclassified file satisfies every
/// tier).
pub open spec fn record_eligible(rec: TestFileView, t: TestType) -> bool {
    rec.tier == t || rec.tier == TestType::General
}

/// A record's location fits the module under test: its directory is the
/// expected test directory for the module (at the record's own tier),
/// or — fallback — its file name matches the module.  An empty module
/// path places no constraint.
pub open spec fn record_location_ok(
    rec: TestFileView,
    mod_path: Seq<char>,
    module_name: Seq<char>,
) -> bool {
    mod_path.len() == 0 || seg_suffix(
        segments_of(parent_of(rec.path)),
        segments_of(expected_test_dir(mod_path, rec.tier)),
    ) || file_name_matches(file_name_of(rec.path), module_name)
}

/// One record satisfies the tiered query: eligible, well located, and
/// defining a name acceptable for the requested tier.
pub open spec fn record_has_test_of_type(
    rec: TestFileView,
    f: Seq<char>,
    source_path: Seq<char>,
    c: Option<Seq<char>>,
    t: TestType,
    mod_path: Seq<char>,
) -> bool {
    record_eligible(rec, t) && record_location_ok(rec, mod_path, file_stem_of(source_path))
        && any_pattern_in(acceptable_patterns(f, c, t), rec.functions)
}

/// Some eligible, well-located record defines a name acceptable for the
/// requested tier.
pub open spec fn cache_has_test_of_type(
    records: Seq<TestFileView>,
    f: Seq<char>,
    source_path: Seq<char>,
    c: Option<Seq<char>>,
    t: TestType,
    mod_path: Seq<char>,
) -> bool {
    exists|i: int|
        0 <= i < records.len() && record_has_test_of_type(records[i], f, source_path, c, t, mod_path)
}

/// A test file handed to the cache builder: its path and its text.
pub struct TestFileData {
    pub path: String,
    pub content: String,
}

impl View for TestFileData {
    type V = (Seq<char>, Seq<char>);

    open spec fn view(&self) -> (Seq<char>, Seq<char>) {
        (self.path@, self.content@)
    }
}

/// The views of a list of test-file inputs.
pub open spec fn file_views(files: Seq<TestFileData>) -> Seq<(Seq<char>, Seq<char>)> {
    Seq::new(files.len(), |i: int| files[i]@)
}

/// The records built from the first `i` files: one per file that
/// defines at least one function, holding its tier and its names.
pub open spec fn built_records(files: Seq<(Seq<char>, Seq<char>)>, i: int) -> Seq<TestFileView>
    decreases i,
{
    if i <= 0 {
        Seq::empty()
    } else {
        let prev = built_records(files, i - 1);
        let p = files[i - 1].0;
        let ct = files[i - 1].1;
        if def_names(ct).len() > 0 {
            prev.push(
                TestFileView {
                    path: p,
                    tier: test_type_of_path(p),
                    functions: def_names(ct),
                },
            )
        } else {
            prev
        }
    }
}

/// Whether some pattern of the list occurs among the function names.
fn any_pattern_match(pats: &Vec<String>, funcs: &Vec<String>) -> (r: bool)
    ensures
        r == any_pattern_in(views_of(pats@), views_of(funcs@)),
{
    let n = pats.len();
    let mut i: usize = 0;
    let mut found = false;
    loop
        invariant
            i <= n,
            n == pats@.len(),
            found ==> any_pattern_in(views_of(pats@), views_of(funcs@)),
            !found ==> forall|j: int|
                0 <= j < i ==> !seq_has(views_of(funcs@), views_of(pats@)[j]),
        ensures
            found == any_pattern_in(views_of(pats@), views_of(funcs@)),
        decreases n - i,
    {
        if i >= n {
            break;
        }
        if vec_contains_str(funcs, pats[i].as_str()) {
            found = true;
            proof {
                assert(seq_has(views_of(funcs@), views_of(pats@)[i as int]));
            }
            break;
        }
        i = i + 1;
    }
    found
}

/// The directory name a cached file is reported under: the name of its
/// parent directory, or a placeholder when it has none.
pub open spec fn location_dir(p: Seq<char>) -> Seq<char> {
    let d = file_name_of(parent_of(p));
    if d.len() == 0 {
        "unknown"@
    } else {
        d
    }
}

/// The directory names of the records of one tier, among the first `i`.
pub open spec fn tier_dirs_upto(records: Seq<TestFileView>, i: int, t: TestType) -> Seq<Seq<char>>
    decreases i,
{
    if i <= 0 {
        Seq::empty()
    } else {
        let prev = tier_dirs_upto(records, i - 1, t);
        if records[i - 1].tier == t {
            prev.push(location_dir(records[i - 1].path))
        } else {
            prev
        }
    }
}

/// Strictly ascending in lexicographic order (so also duplicate-free).
pub open spec fn strictly_sorted(v: Seq<Seq<char>>) -> bool {
    forall|i: int| 0 <= i < v.len() - 1 ==> lex_lt(#[trigger] v[i], v[i + 1])
}

/// Insert a name into a strictly sorted list, keeping it strictly
/// sorted; a name already present is not repeated.
fn insert_sorted(v: &mut Vec<String>, name: String)
    requires
        strictly_sorted(views_of(old(v)@)),
    ensures
        strictly_sorted(views_of(final (v)@)),
        forall|x: Seq<char>| #[trigger] seq_has(views_of(final (v)@), x) <==> (seq_has(
            views_of(old(v)@),
            x,
        ) || x == name@),
{
    let ghost ov = views_of(v@);
    let n = v.len();
    let mut j: usize = 0;
    loop
        invariant
            j <= n,
            n == v@.len(),
            ov == views_of(v@),
            strictly_sorted(ov),
            forall|q: int| 0 <= q < j ==> lex_lt(ov[q], name@),
        ensures
            j <= n,
            ov == views_of(v@),
            v@.len() == n,
            forall|q: int| 0 <= q < j ==> lex_lt(ov[q], name@),
            j < n ==> !lex_lt(ov[j as int], name@),
        decreases n - j,
    {
        if j >= n {
            break;
        }
        if !crate::text::str_lt(v[j].as_str(), name.as_str()) {
            break;
        }
        j = j + 1;
    }
    if j < n {
        if crate::text::str_eq(v[j].as_str(), name.as_str()) {
            proof {
                assert(seq_has(views_of(v@), name@));
                assert(forall|x: Seq<char>| #[trigger] seq_has(views_of(v@), x) <==> (seq_has(
                    ov,
                    x,
                ) || x == name@));
            }
            return ;
        }
    }
    proof {
        if j < n {
            crate::text::lemma_lex_total(ov[j as int], name@);
        }
    }
    let ghost nv = name@;
    v.insert(j, name);
    proof {
        lemma_seq_has_insert(ov, j as int, nv);
        assert(views_of(v@) =~= ov.insert(j as int, nv));
        ov.insert_ensures(j as int, nv);
        let newv = views_of(v@);
        assert forall|i: int| 0 <= i < newv.len() - 1 implies lex_lt(
            #[trigger] newv[i],
            newv[i + 1],
        ) by {
            if i + 1 < j {
                assert(newv[i] == ov[i] && newv[i + 1] == ov[i + 1]);
            } else if i + 1 == j {
                assert(newv[i] == ov[i] && newv[i + 1] == nv);
            } else if i == j {
                assert(newv[i] == nv && newv[i + 1] == ov[i]);
            } else {
                assert(newv[i] == ov[i - 1] && newv[i + 1] == ov[i]);
            }
        }
    }
}

/// Concatenation of two strings.
fn cat2(a: &str, b: &str) -> (r: String)
    ensures
        r@ == a@ + b@,
{
    let mut s = String::from_str(a);
    s.append(b);
    s
}

/// Concatenation of four strings.
fn cat4(a: &str, b: &str, c: &str, d: &str) -> (r: String)
    ensures
        r@ == a@ + b@ + c@ + d@,
{
    let mut s = String::from_str(a);
    s.append(b);
    s.append(c);
    s.append(d);
    proof {
        assert(s@ =~= a@ + b@ + c@ + d@);
    }
    s
}

impl TestCache {
    /// An empty cache.
    pub fn new() -> (r: Self)
        ensures
            r@ =~= Seq::<TestFileView>::empty(),
    {
        TestCache { test_files: Vec::new() }
    }

    /// The single canonical test name for a function (see
    /// [`canonical_pattern`]): the name quoted in violation messages.
    pub fn get_canonical_test_pattern(
        &self,
        function_name: &str,
        class_name: Option<&str>,
        test_type: &TestType,
    ) -> (r: String)
        ensures
            r@ == canonical_pattern(
                function_name@,
                match class_name {
                    Some(c) => Some(c@),
                    None => None,
                },
                *test_type,
            ),
    {
        match class_name {
            Some(class) => {
                let r = cat4("test_", class, "_", function_name);
                r
            },
            None => cat2("test_", function_name),
        }
    }

    /// The ranked list of acceptable test names (see
    /// [`acceptable_patterns`]), used only for the existence check.
    pub fn generate_test_patterns(
        &self,
        function_name: &str,
        class_name: Option<&str>,
        test_type: &TestType,
    ) -> (r: Vec<String>)
        ensures
            views_of(r@) == acceptable_patterns(
                function_name@,
                match class_name {
                    Some(c) => Some(c@),
                    None => None,
                },
                *test_type,
            ),
    {
        let f = function_name;
        let mut patterns: Vec<String> = Vec::new();
        match class_name {
            Some(class) => {
                match test_type {
                    TestType::Unit => {
                        patterns.push(cat4("test_", class, "_", f));
                        let lower = to_lowercase_ascii(class);
                        patterns.push(cat4("test_", lower.as_str(), "_", f));
                        patterns.push(cat4("test_unit_", class, "_", f));
                        patterns.push(cat2("test_", f));
                    },
                    TestType::Integration => {
                        patterns.push(cat4("test_integration_", class, "_", f));
                        patterns.push(cat4("test_int_", class, "_", f));
                        patterns.push(cat4("test_", class, "_", f));
                        patterns.push(cat2("test_integration_", f));
                        patterns.push(cat2("test_", f));
                    },
                    TestType::E2E => {
                        patterns.push(cat4("test_e2e_", class, "_", f));
                        patterns.push(cat4("test_end_to_end_", class, "_", f));
                        patterns.push(cat4("test_", class, "_", f));
                        patterns.push(cat2("test_e2e_", f));
                        patterns.push(cat2("test_", f));
                    },
                    TestType::General => {
                        patterns.push(cat4("test_", class, "_", f));
                        let lower = to_lowercase_ascii(class);
                        patterns.push(cat4("test_", lower.as_str(), "_", f));
                        patterns.push(cat4("test_unit_", class, "_", f));
                        patterns.push(cat4("test_integration_", class, "_", f));
                        patterns.push(cat4("test_e2e_", class, "_", f));
                        patterns.push(cat2("test_", f));
                    },
                }
            },
            None => {
                match test_type {
                    TestType::Unit => {
                        patterns.push(cat2("test_", f));
                        patterns.push(cat2("test_unit_", f));
                    },
                    TestType::Integration => {
                        patterns.push(cat2("test_integration_", f));
                        patterns.push(cat2("test_int_", f));
                        patterns.push(cat2("test_", f));
                    },
                    TestType::E2E => {
                        patterns.push(cat2("test_e2e_", f));
                        patterns.push(cat2("test_end_to_end_", f));
                        patterns.push(cat2("test_", f));
                    },
                    TestType::General => {
                        patterns.push(cat2("test_", f));
                        patterns.push(cat2("test_e2e_", f));
                        patterns.push(cat2("test_integration_", f));
                        patterns.push(cat2("test_unit_", f));
                    },
                }
            },
        }
        proof {
            assert(views_of(patterns@) =~= acceptable_patterns(
                function_name@,
                match class_name {
                    Some(c) => Some(c@),
                    None => None,
                },
                *test_type,
            ));
        }
        patterns
    }

    /// Build the cache from the test files' contents: one record per
    /// file that defines at least one function.
    pub fn build_from_contents(files: &Vec<TestFileData>) -> (r: Self)
        ensures
            r@ == built_records(file_views(files@), files@.len() as int),
    {
        let ghost fv = file_views(files@);
        let n = files.len();
        let mut cache = TestCache { test_files: Vec::new() };
        let mut i: usize = 0;
        while i < n
            invariant
                i <= n,
                n == files@.len(),
                fv == file_views(files@),
                cache@ == built_records(fv, i as int),
            decreases n - i,
        {
            let functions = extract_functions(files[i].content.as_str());
            if functions.len() > 0 {
                let test_type = TestType::from_path(files[i].path.as_str());
                let rec = TestFileRecord {
                    path: files[i].path.clone(),
                    test_type,
                    functions,
                };
                cache.test_files.push(rec);
            }
            proof {
                assert(cache@ =~= built_records(fv, i + 1));
            }
            i = i + 1;
        }
        cache
    }

    /// Whether any cached test file plausibly covering the source module
    /// defines an acceptable test name for the function (each file
    /// judged by the patterns of its own tier).
    pub fn has_test_for_function(
        &self,
        function_name: &str,
        source_path: &str,
        class_name: Option<&str>,
    ) -> (r: bool)
        ensures
            r == cache_has_test(
                self@,
                function_name@,
                source_path@,
                match class_name {
                    Some(c) => Some(c@),
                    None => None,
                },
            ),
    {
        let ghost cv = match class_name {
            Some(c) => Some(c@),
            None => None,
        };
        let module_name = file_stem(source_path);
        let n = self.test_files.len();
        let mut i: usize = 0;
        let mut found = false;
        loop
            invariant
                i <= n,
                n == self@.len(),
                module_name@ == file_stem_of(source_path@),
                cv == match class_name {
                    Some(c) => Some(c@),
                    None => None,
                },
                found ==> cache_has_test(self@, function_name@, source_path@, cv),
                !found ==> forall|j: int|
                    0 <= j < i ==> !record_has_test(self@[j], function_name@, source_path@, cv),
            ensures
                found == cache_has_test(self@, function_name@, source_path@, cv),
            decreases n - i,
        {
            if i >= n {
                break;
            }
            let rec = &self.test_files[i];
            proof {
                assert(self@[i as int] == rec@);
                reveal_strlit("test_");
            }
            let fname = file_name(rec.path.as_str());
            if contains_exec(fname, module_name) || starts_with_exec(fname, "test_") {
                let pats = self.generate_test_patterns(function_name, class_name, &rec.test_type);
                if any_pattern_match(&pats, &rec.functions) {
                    found = true;
                    proof {
                        assert(record_has_test(self@[i as int], function_name@, source_path@, cv));
                    }
                    break;
                }
            }
            proof {
                assert(!record_has_test(self@[i as int], function_name@, source_path@, cv));
            }
            i = i + 1;
        }
        found
    }

    /// Whether a cached test file of the requested tier (or `General`),
    /// located where the module's tests belong or matching it by name,
    /// defines an acceptable test name for the function at that tier.
    pub fn has_test_for_function_of_type(
        &self,
        function_name: &str,
        source_path: &str,
        class_name: Option<&str>,
        test_type: &TestType,
        mod_path: &str,
        project_root: &str,
    ) -> (r: bool)
        ensures
            r == cache_has_test_of_type(
                self@,
                function_name@,
                source_path@,
                match class_name {
                    Some(c) => Some(c@),
                    None => None,
                },
                *test_type,
                mod_path@,
            ),
    {
        let ghost cv = match class_name {
            Some(c) => Some(c@),
            None => None,
        };
        let ghost t = *test_type;
        let module_name = file_stem(source_path);
        let mp_len = str_len(mod_path);
        let n = self.test_files.len();
        let mut i: usize = 0;
        let mut found = false;
        loop
            invariant
                i <= n,
                n == self@.len(),
                t == *test_type,
                module_name@ == file_stem_of(source_path@),
                mp_len == mod_path@.len(),
                cv == match class_name {
                    Some(c) => Some(c@),
                    None => None,
                },
                found ==> cache_has_test_of_type(
                    self@,
                    function_name@,
                    source_path@,
                    cv,
                    t,
                    mod_path@,
                ),
                !found ==> forall|j: int|
                    0 <= j < i ==> !record_has_test_of_type(
                        self@[j],
                        function_name@,
                        source_path@,
                        cv,
                        t,
                        mod_path@,
                    ),
            ensures
                found == cache_has_test_of_type(
                    self@,
                    function_name@,
                    source_path@,
                    cv,
                    t,
                    mod_path@,
                ),
            decreases n - i,
        {
            if i >= n {
                break;
            }
            let rec = &self.test_files[i];
            proof {
                assert(self@[i as int] == rec@);
                reveal_strlit("test_");
            }
            let eligible = rec.test_type == *test_type || rec.test_type == TestType::General;
            if eligible {
                let mut location_ok = true;
                if mp_len > 0 {
                    let expected = self.get_expected_test_path(
                        mod_path,
                        &rec.test_type,
                        project_root,
                    );
                    let test_dir = parent_dir(rec.path.as_str());
                    let dir_segs = segments(test_dir);
                    let exp_segs = segments(expected.as_str());
                    proof {
                        assert(Seq::new(dir_segs@.len(), |q: int| dir_segs@[q]@) =~= segments_of(
                            parent_of(rec@.path),
                        ));
                        assert(Seq::new(exp_segs@.len(), |q: int| exp_segs@[q]@) =~= segments_of(
                            expected_test_dir(mod_path@, rec@.tier),
                        ));
                    }
                    if !segments_end_with(&dir_segs, &exp_segs) {
                        let fname = file_name(rec.path.as_str());
                        if !contains_exec(fname, module_name) && !starts_with_exec(
                            fname,
                            "test_",
                        ) {
                            location_ok = false;
                        }
                    }
                }
                proof {
                    assert(location_ok == record_location_ok(
                        self@[i as int],
                        mod_path@,
                        file_stem_of(source_path@),
                    ));
                }
                if location_ok {
                    let pats = self.generate_test_patterns(function_name, class_name, test_type);
                    if any_pattern_match(&pats, &rec.functions) {
                        found = true;
                        proof {
                            assert(record_has_test_of_type(
                                self@[i as int],
                                function_name@,
                                source_path@,
                                cv,
                                t,
                                mod_path@,
                            ));
                        }
                        break;
                    }
                }
            }
            i = i + 1;
        }
        found
    }

    /// The expected test directory for a module and tier (see
    /// [`expected_test_dir`]).  The directory is relative; the project
    /// root parameter is kept for interface compatibility.
    pub fn get_expected_test_path(
        &self,
        mod_path: &str,
        test_type: &TestType,
        project_root: &str,
    ) -> (r: String)
        ensures
            r@ == expected_test_dir(mod_path@, *test_type),
    {
        let parts = split_char(mod_path, '.');
        let ghost pv = split_seq(mod_path@, '.');
        let base = match test_type {
            TestType::Unit => "test/unit",
            TestType::Integration => "test/integration",
            TestType::E2E => "test/e2e",
            TestType::General => "test",
        };
        let mut path = String::from_str(base);
        let m = parts.len();
        if m > 1 {
            let mut idx: usize = 0;
            while idx < m - 1
                invariant
                    idx <= m - 1,
                    m == parts@.len(),
                    pv.len() == m,
                    forall|q: int| 0 <= q < pv.len() ==> parts@[q]@ == pv[q],
                    path@ == push_segs(base@, pv, idx as int),
                decreases m - 1 - idx,
            {
                path.append("/");
                path.append(parts[idx].as_str());
                proof {
                    reveal_strlit("/");
                    assert(path@ =~= push_segs(base@, pv, idx + 1));
                }
                idx = idx + 1;
            }
        }
        path
    }

    /// The absolute path where the module's test file of a tier should
    /// live (see [`expected_test_file`]).
    pub fn get_expected_test_file_path(
        &self,
        mod_path: &str,
        source_file_name: &str,
        test_type: &TestType,
        project_root: &str,
    ) -> (r: String)
        ensures
            r@ == expected_test_file(
                mod_path@,
                source_file_name@,
                *test_type,
                project_root@,
            ),
    {
        let test_dir = self.get_expected_test_path(mod_path, test_type, project_root);
        proof {
            reveal_strlit(".py");
        }
        let test_file_name = if ends_with_exec(source_file_name, ".py") {
            cat2("test_", source_file_name)
        } else {
            let mut f = cat2("test_", source_file_name);
            f.append(".py");
            proof {
                assert(f@ =~= "test_"@ + source_file_name@ + ".py"@);
            }
            f
        };
        let joined = join_path_exec(project_root, test_dir.as_str());
        join_path_exec(joined.as_str(), test_file_name.as_str())
    }

    /// The directory names of this tier's cached files, sorted and
    /// without duplicates.
    fn sorted_tier_dirs(&self, t: TestType) -> (r: Vec<String>)
        ensures
            strictly_sorted(views_of(r@)),
            forall|x: Seq<char>| #[trigger] seq_has(views_of(r@), x) <==> seq_has(
                tier_dirs_upto(self@, self@.len() as int, t),
                x,
            ),
    {
        let n = self.test_files.len();
        let mut out: Vec<String> = Vec::new();
        let mut i: usize = 0;
        while i < n
            invariant
                i <= n,
                n == self@.len(),
                strictly_sorted(views_of(out@)),
                forall|x: Seq<char>| #[trigger] seq_has(views_of(out@), x) <==> seq_has(
                    tier_dirs_upto(self@, i as int, t),
                    x,
                ),
            decreases n - i,
        {
            let rec = &self.test_files[i];
            proof {
                assert(self@[i as int] == rec@);
            }
            if rec.test_type == t {
                let parent = parent_dir(rec.path.as_str());
                let dname = file_name(parent);
                let dn = str_len(dname);
                let dir = if dn == 0 {
                    String::from_str("unknown")
                } else {
                    String::from_str(dname)
                };
                proof {
                    reveal_strlit("unknown");
                    assert(dir@ == location_dir(rec@.path));
                    lemma_seq_has_push(tier_dirs_upto(self@, i as int, t), location_dir(rec@.path));
                }
                let ghost old_out = views_of(out@);
                let ghost dv = dir@;
                insert_sorted(&mut out, dir);
                proof {
                    assert forall|x: Seq<char>| #[trigger] seq_has(views_of(out@), x) <==> seq_has(
                        tier_dirs_upto(self@, i + 1, t),
                        x,
                    ) by {
                        assert(tier_dirs_upto(self@, i + 1, t) == tier_dirs_upto(
                            self@,
                            i as int,
                            t,
                        ).push(location_dir(self@[i as int].path)));
                    }
                }
            } else {
                proof {
                    assert(tier_dirs_upto(self@, i + 1, t) == tier_dirs_upto(self@, i as int, t));
                }
            }
            i = i + 1;
        }
        out
    }

    /// For each tier, the directory names where its test files were
    /// found: sorted, without duplicates, one entry per tier in a
    /// fixed order.
    pub fn get_test_locations(&self) -> (r: Vec<(TestType, Vec<String>)>)
        ensures
            r@.len() == 4,
            r@[0].0 == TestType::Unit,
            r@[1].0 == TestType::Integration,
            r@[2].0 == TestType::E2E,
            r@[3].0 == TestType::General,
            forall|k: int| 0 <= k < 4 ==> strictly_sorted(views_of(#[trigger] r@[k].1@)),
            forall|k: int, x: Seq<char>|
                0 <= k < 4 ==> (#[trigger] seq_has(views_of(r@[k].1@), x) <==> seq_has(
                    tier_dirs_upto(self@, self@.len() as int, r@[k].0),
                    x,
                )),
    {
        let mut locations: Vec<(TestType, Vec<String>)> = Vec::new();
        locations.push((TestType::Unit, self.sorted_tier_dirs(TestType::Unit)));
        locations.push((TestType::Integration, self.sorted_tier_dirs(TestType::Integration)));
        locations.push((TestType::E2E, self.sorted_tier_dirs(TestType::E2E)));
        locations.push((TestType::General, self.sorted_tier_dirs(TestType::General)));
        locations
    }
}

} // verus!

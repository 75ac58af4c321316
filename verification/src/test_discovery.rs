//! A reference search for a function's test that rescans every test
//! file on each query, with the same matching semantics as the cache.
//! Building the cache once and querying it is proved equivalent.

use vstd::prelude::*;

use crate::paths::{file_name_of, file_stem_of};
use crate::paths::file_stem;
use crate::test_cache::{
    acceptable_patterns, any_pattern_in, built_records, cache_has_test, def_names, extract_functions,
    file_name_matches, file_views, record_has_test, test_type_of_path, TestCache, TestFileData,
    TestFileView,
};
use crate::paths::file_name;
use crate::text::{seq_has, views_of};
use crate::text::{contains_exec, starts_with_exec};

verus! {

/// One file, rescanned, holds an acceptable test for the function: its
/// name matches the module and its text defines an acceptable name for
/// the file's own tier.
pub open spec fn file_has_test(
    p: Seq<char>,
    ct: Seq<char>,
    f: Seq<char>,
    source_path: Seq<char>,
    c: Option<Seq<char>>,
) -> bool {
    file_name_matches(file_name_of(p), file_stem_of(source_path)) && any_pattern_in(
        acceptable_patterns(f, c, test_type_of_path(p)),
        def_names(ct),
    )
}

/// Some of the first `i` files, rescanned, holds an acceptable test.
pub open spec fn rescan_has_test(
    files: Seq<(Seq<char>, Seq<char>)>,
    i: int,
    f: Seq<char>,
    source_path: Seq<char>,
    c: Option<Seq<char>>,
) -> bool
    decreases i,
{
    if i <= 0 {
        false
    } else {
        rescan_has_test(files, i - 1, f, source_path, c) || file_has_test(
            files[i - 1].0,
            files[i - 1].1,
            f,
            source_path,
            c,
        )
    }
}

/// Search the given test files for a test of the function, reading
/// every file's text afresh (see [`rescan_has_test`]).
pub fn find_test_for_function(
    function_name: &str,
    source_path: &str,
    class_name: Option<&str>,
    files: &Vec<TestFileData>,
) -> (r: bool)
    ensures
        r == rescan_has_test(
            file_views(files@),
            files@.len() as int,
            function_name@,
            source_path@,
            match class_name {
                Some(c) => Some(c@),
                None => None,
            },
        ),
{
    let ghost fv = file_views(files@);
    let ghost cv = match class_name {
        Some(c) => Some(c@),
        None => None,
    };
    let module_name = file_stem(source_path);
    let scratch = TestCache::new();
    let n = files.len();
    let mut i: usize = 0;
    let mut found = false;
    while i < n
        invariant
            i <= n,
            n == files@.len(),
            fv == file_views(files@),
            module_name@ == file_stem_of(source_path@),
            cv == match class_name {
                Some(c) => Some(c@),
                None => None,
            },
            found == rescan_has_test(fv, i as int, function_name@, source_path@, cv),
        decreases n - i,
    {
        if !found {
            let fname = file_name(files[i].path.as_str());
            proof {
                reveal_strlit("test_");
            }
            if contains_exec(fname, module_name) || starts_with_exec(fname, "test_") {
                let tier = crate::test_cache::TestType::from_path(files[i].path.as_str());
                let pats = scratch.generate_test_patterns(function_name, class_name, &tier);
                let functions = extract_functions(files[i].content.as_str());
                let mut j: usize = 0;
                let m = pats.len();
                let mut hit = false;
                while j < m
                    invariant
                        j <= m,
                        m == pats@.len(),
                        hit ==> any_pattern_in(views_of(pats@), views_of(functions@)),
                        !hit ==> forall|q: int|
                            0 <= q < j ==> !seq_has(views_of(functions@), views_of(pats@)[q]),
                    ensures
                        hit == any_pattern_in(views_of(pats@), views_of(functions@)),
                    decreases m - j,
                {
                    if crate::text::vec_contains_str(&functions, pats[j].as_str()) {
                        hit = true;
                        proof {
                            assert(seq_has(views_of(functions@), views_of(pats@)[j as int]));
                        }
                        break;
                    }
                    j = j + 1;
                }
                if hit {
                    found = true;
                }
                proof {
                    assert(hit == any_pattern_in(views_of(pats@), views_of(functions@)));
                    assert(found == rescan_has_test(fv, i + 1, function_name@, source_path@, cv));
                }
            } else {
                proof {
                    assert(!file_has_test(fv[i as int].0, fv[i as int].1, function_name@,
                    source_path@, cv));
                }
            }
        }
        i = i + 1;
    }
    found
}

/// Cache/no-cache equivalence: querying a cache built once from the
/// test files gives the same answer as rescanning every file for the
/// same inputs.
pub proof fn lemma_cache_matches_rescan(
    files: Seq<(Seq<char>, Seq<char>)>,
    i: int,
    f: Seq<char>,
    source_path: Seq<char>,
    c: Option<Seq<char>>,
)
    requires
        0 <= i <= files.len(),
    ensures
        cache_has_test(built_records(files, i), f, source_path, c) == rescan_has_test(
            files,
            i,
            f,
            source_path,
            c,
        ),
    decreases i,
{
    if i > 0 {
        lemma_cache_matches_rescan(files, i - 1, f, source_path, c);
        let prev = built_records(files, i - 1);
        let p = files[i - 1].0;
        let ct = files[i - 1].1;
        if def_names(ct).len() > 0 {
            let rec = TestFileView {
                path: p,
                tier: test_type_of_path(p),
                functions: def_names(ct),
            };
            assert(built_records(files, i) == prev.push(rec));
            assert(record_has_test(rec, f, source_path, c) == file_has_test(
                p,
                ct,
                f,
                source_path,
                c,
            ));
            if cache_has_test(prev, f, source_path, c) {
                let j = choose|j: int|
                    0 <= j < prev.len() && record_has_test(prev[j], f, source_path, c);
                assert(prev.push(rec)[j] == prev[j]);
                assert(cache_has_test(prev.push(rec), f, source_path, c));
            }
            if record_has_test(rec, f, source_path, c) {
                assert(prev.push(rec)[prev.len() as int] == rec);
                assert(cache_has_test(prev.push(rec), f, source_path, c));
            }
            if cache_has_test(prev.push(rec), f, source_path, c) {
                let j = choose|j: int|
                    0 <= j < prev.push(rec).len() && record_has_test(
                        prev.push(rec)[j],
                        f,
                        source_path,
                        c,
                    );
                if j < prev.len() {
                    assert(prev.push(rec)[j] == prev[j]);
                    assert(cache_has_test(prev, f, source_path, c));
                } else {
                    assert(prev.push(rec)[j] == rec);
                }
            }
        } else {
            assert(built_records(files, i) == prev);
            assert(!any_pattern_in(
                acceptable_patterns(f, c, test_type_of_path(p)),
                def_names(ct),
            ));
        }
    }
}

} // verus!

//! The public surface of a module: an explicit export list (an `__all__`
//! assignment holding quoted names) overrides the underscore convention;
//! without one, any name not beginning with an underscore is public.

use vstd::prelude::*;

use crate::text::{dedup_upto, find_char, match_at, seq_has, views_of};
use crate::text::{lemma_dedup_upto_push, lemma_find_char};
use crate::text::{find_char_exec, match_at_exec, str_len, vec_contains_str};

verus! {

/// Whitespace as the export-list scanner accepts it between tokens
/// (horizontal or vertical: the assignment may span lines).
pub open spec fn is_wsnl_char(c: char) -> bool {
    c == ' ' || c == '\t' || c == '\n' || c == '\r' || c == '\u{c}' || c == '\u{b}'
}

/// First index at or after `i` whose character is not (possibly
/// vertical) whitespace.
pub open spec fn skip_wsnl(s: Seq<char>, i: int) -> int
    decreases s.len() - i,
{
    if 0 <= i < s.len() && is_wsnl_char(s[i]) {
        skip_wsnl(s, i + 1)
    } else {
        i
    }
}

pub proof fn lemma_skip_wsnl(s: Seq<char>, i: int)
    requires
        0 <= i <= s.len(),
    ensures
        i <= skip_wsnl(s, i) <= s.len(),
    decreases s.len() - i,
{
    if i < s.len() && is_wsnl_char(s[i]) {
        lemma_skip_wsnl(s, i + 1);
    }
}

/// Executable counterpart of [`skip_wsnl`].
fn skip_wsnl_exec(s: &str, from: usize) -> (r: usize)
    requires
        from <= s@.len(),
    ensures
        r == skip_wsnl(s@, from as int),
        from <= r <= s@.len(),
{
    let n = str_len(s);
    let mut i: usize = from;
    loop
        invariant
            from <= i <= n,
            n == s@.len(),
            skip_wsnl(s@, from as int) == skip_wsnl(s@, i as int),
        ensures
            i <= n,
            skip_wsnl(s@, from as int) == i as int,
        decreases n - i,
    {
        if i >= n {
            break;
        }
        let c = s.get_char(i);
        if !(c == ' ' || c == '\t' || c == '\n' || c == '\r' || c == '\u{c}' || c == '\u{b}') {
            break;
        }
        i = i + 1;
    }
    i
}

/// An export-list assignment begins at `i`: the word `__all__`, optional
/// whitespace, `=`, optional whitespace, `[`, with a closing `]`
/// somewhere after.
pub open spec fn all_assign_at(s: Seq<char>, i: int) -> bool {
    match_at(s, i, "__all__"@) && {
        let e = skip_wsnl(s, i + 7);
        e < s.len() && s[e] == '=' && {
            let b = skip_wsnl(s, e + 1);
            b < s.len() && s[b] == '[' && find_char(s, b + 1, ']') < s.len()
        }
    }
}

/// First index at or after `i` where an export-list assignment begins
/// (the length if none).
pub open spec fn all_assign_start(s: Seq<char>, i: int) -> int
    decreases s.len() - i,
{
    if 0 <= i < s.len() {
        if all_assign_at(s, i) {
            i
        } else {
            all_assign_start(s, i + 1)
        }
    } else {
        i
    }
}

pub proof fn lemma_all_assign_start(s: Seq<char>, i: int)
    requires
        0 <= i <= s.len(),
    ensures
        i <= all_assign_start(s, i) <= s.len(),
        forall|j: int| i <= j < all_assign_start(s, i) ==> !all_assign_at(s, j),
        all_assign_start(s, i) == s.len() || all_assign_at(s, all_assign_start(s, i)),
    decreases s.len() - i,
{
    if i < s.len() && !all_assign_at(s, i) {
        lemma_all_assign_start(s, i + 1);
    }
}

/// The bracketed contents of the export list beginning at `i`.
pub open spec fn all_list_body(s: Seq<char>, i: int) -> Seq<char> {
    let e = skip_wsnl(s, i + 7);
    let b = skip_wsnl(s, e + 1);
    s.subrange(b + 1, find_char(s, b + 1, ']'))
}

/// A quote character, single or double.
pub open spec fn is_quote_char(c: char) -> bool {
    c == '\'' || c == '"'
}

/// First index at or after `i` holding a quote (the length if none).
pub open spec fn find_quote(s: Seq<char>, i: int) -> int
    decreases s.len() - i,
{
    if 0 <= i < s.len() {
        if is_quote_char(s[i]) {
            i
        } else {
            find_quote(s, i + 1)
        }
    } else {
        i
    }
}

pub proof fn lemma_find_quote(s: Seq<char>, i: int)
    requires
        0 <= i <= s.len(),
    ensures
        i <= find_quote(s, i) <= s.len(),
        forall|j: int| i <= j < find_quote(s, i) ==> !is_quote_char(s[j]),
        find_quote(s, i) == s.len() || is_quote_char(s[find_quote(s, i)]),
    decreases s.len() - i,
{
    if i < s.len() && !is_quote_char(s[i]) {
        lemma_find_quote(s, i + 1);
    }
}

/// The quoted names found scanning from `i`: a quote, one or more
/// non-quote characters, and a closing quote of either kind.
pub open spec fn quoted_names_from(s: Seq<char>, i: int) -> Seq<Seq<char>>
    decreases s.len() - i,
    via quoted_names_from_decreases
{
    if 0 <= i < s.len() {
        if is_quote_char(s[i]) {
            let k = find_quote(s, i + 1);
            if k < s.len() && k > i + 1 {
                seq![s.subrange(i + 1, k)] + quoted_names_from(s, k + 1)
            } else {
                quoted_names_from(s, i + 1)
            }
        } else {
            quoted_names_from(s, i + 1)
        }
    } else {
        Seq::empty()
    }
}

#[via_fn]
proof fn quoted_names_from_decreases(s: Seq<char>, i: int) {
    if 0 <= i < s.len() {
        lemma_find_quote(s, i + 1);
    }
}

/// The distinct quoted names of an export-list body, in order of first
/// occurrence.
pub open spec fn all_names_of(body: Seq<char>) -> Seq<Seq<char>> {
    let q = quoted_names_from(body, 0);
    dedup_upto(q, q.len() as int)
}

/// The export surface of a module's text: the names of its export list
/// when it has one, `None` otherwise.
pub open spec fn module_all_spec(s: Seq<char>) -> Option<Seq<Seq<char>>> {
    let st = all_assign_start(s, 0);
    if st == s.len() {
        None
    } else {
        Some(all_names_of(all_list_body(s, st)))
    }
}

/// The public surface of a module: an explicit allow-list, or (absent
/// one) the underscore convention.
pub struct PublicApi {
    pub all_names: Option<Vec<String>>,
}

impl View for PublicApi {
    type V = Option<Seq<Seq<char>>>;

    open spec fn view(&self) -> Option<Seq<Seq<char>>> {
        match self.all_names {
            Some(v) => Some(views_of(v@)),
            None => None,
        }
    }
}

/// Whether a name is public under a given surface.
pub open spec fn is_public_spec(api: Option<Seq<Seq<char>>>, name: Seq<char>) -> bool {
    match api {
        Some(names) => seq_has(names, name),
        None => !(name.len() > 0 && name[0] == '_'),
    }
}

impl PublicApi {
    /// A surface with no export list: the underscore convention applies.
    pub fn default() -> (r: Self)
        ensures
            r@ is None,
    {
        PublicApi { all_names: None }
    }

    /// Whether a function or class name is public: membership in the
    /// export list when one exists, else absence of a leading underscore.
    pub fn is_public(&self, name: &str) -> (r: bool)
        ensures
            r == is_public_spec(self@, name@),
    {
        match &self.all_names {
            Some(all_set) => vec_contains_str(all_set, name),
            None => {
                let n = str_len(name);
                if n == 0 {
                    return true;
                }
                let c = name.get_char(0);
                c != '_'
            },
        }
    }
}

/// Extract the distinct quoted names from export-list contents.
pub fn parse_all_names(content: &str) -> (r: Vec<String>)
    ensures
        views_of(r@) == all_names_of(content@),
{
    let n = str_len(content);
    let mut out: Vec<String> = Vec::new();
    let ghost mut qdone: Seq<Seq<char>> = Seq::empty();
    let mut i: usize = 0;
    loop
        invariant
            i <= n,
            n == content@.len(),
            quoted_names_from(content@, 0) == qdone + quoted_names_from(content@, i as int),
            views_of(out@) == dedup_upto(qdone, qdone.len() as int),
        ensures
            views_of(out@) == all_names_of(content@),
        decreases n - i,
    {
        if i >= n {
            proof {
                assert(quoted_names_from(content@, 0) =~= qdone);
            }
            break;
        }
        let c = content.get_char(i);
        if c == '\'' || c == '"' {
            let k = find_quote_exec(content, i + 1);
            proof {
                lemma_find_quote(content@, i + 1);
            }
            if k < n && k > i + 1 {
                let name = content.substring_char(i + 1, k);
                let ghost old_q = qdone;
                proof {
                    qdone = qdone.push(name@);
                    lemma_dedup_upto_push(old_q, name@, old_q.len() as int);
                    assert(quoted_names_from(content@, i as int) =~= seq![name@]
                        + quoted_names_from(content@, k + 1));
                    assert(qdone + quoted_names_from(content@, k + 1) =~= old_q
                        + quoted_names_from(content@, i as int));
                }
                if !vec_contains_str(&out, name) {
                    out.push(String::from_str(name));
                    proof {
                        assert(views_of(out@) =~= dedup_upto(qdone, qdone.len() as int));
                    }
                } else {
                    proof {
                        assert(views_of(out@) =~= dedup_upto(qdone, qdone.len() as int));
                    }
                }
                i = k + 1;
            } else {
                proof {
                    assert(quoted_names_from(content@, i as int) == quoted_names_from(
                        content@,
                        i + 1,
                    ));
                }
                i = i + 1;
            }
        } else {
            proof {
                assert(quoted_names_from(content@, i as int) == quoted_names_from(
                    content@,
                    i + 1,
                ));
            }
            i = i + 1;
        }
    }
    out
}

/// Executable counterpart of [`find_quote`].
fn find_quote_exec(s: &str, from: usize) -> (r: usize)
    requires
        from <= s@.len(),
    ensures
        r == find_quote(s@, from as int),
        from <= r <= s@.len(),
{
    let n = str_len(s);
    let mut i: usize = from;
    loop
        invariant
            from <= i <= n,
            n == s@.len(),
            find_quote(s@, from as int) == find_quote(s@, i as int),
        ensures
            i <= n,
            find_quote(s@, from as int) == i as int,
        decreases n - i,
    {
        if i >= n {
            break;
        }
        let c = s.get_char(i);
        if c == '\'' || c == '"' {
            break;
        }
        i = i + 1;
    }
    i
}

/// Whether an export-list assignment begins at `i`.
fn all_assign_at_exec(s: &str, i: usize) -> (r: bool)
    requires
        i <= s@.len(),
    ensures
        r == all_assign_at(s@, i as int),
{
    let n = str_len(s);
    proof {
        reveal_strlit("__all__");
    }
    if !match_at_exec(s, i, "__all__") {
        return false;
    }
    let e = skip_wsnl_exec(s, i + 7);
    if e >= n {
        return false;
    }
    if s.get_char(e) != '=' {
        return false;
    }
    let b = skip_wsnl_exec(s, e + 1);
    if b >= n {
        return false;
    }
    if s.get_char(b) != '[' {
        return false;
    }
    let close = find_char_exec(s, b + 1, ']');
    close < n
}

/// Find a module's export list in its text and build its public surface.
pub fn extract_module_all(content: &str) -> (r: PublicApi)
    ensures
        r@ == module_all_spec(content@),
{
    let n = str_len(content);
    let mut i: usize = 0;
    loop
        invariant
            i <= n,
            n == content@.len(),
            all_assign_start(content@, 0) == all_assign_start(content@, i as int),
        ensures
            i <= n,
            all_assign_start(content@, 0) == i as int,
        decreases n - i,
    {
        if i >= n {
            break;
        }
        if all_assign_at_exec(content, i) {
            break;
        }
        i = i + 1;
    }
    if i == n {
        return PublicApi::default();
    }
    proof {
        lemma_all_assign_start(content@, 0);
        reveal_strlit("__all__");
    }
    let e = skip_wsnl_exec(content, i + 7);
    let b = skip_wsnl_exec(content, e + 1);
    proof {
        assert(all_assign_at(content@, i as int));
        lemma_find_char(content@, b + 1, ']');
    }
    let close = find_char_exec(content, b + 1, ']');
    let body = content.substring_char(b + 1, close);
    let names = parse_all_names(body);
    PublicApi { all_names: Some(names) }
}

/// Whether a function qualifies for coverage checking: object
/// initialisers never do; in strict mode everything else does; otherwise
/// underscore-prefixed methods are skipped and visibility defers to the
/// module surface (of the class, for a method).
pub open spec fn should_check_spec(
    f: Seq<char>,
    class: Option<Seq<char>>,
    api: Option<Seq<Seq<char>>>,
    strict: bool,
) -> bool {
    if f == "__init__"@ {
        false
    } else if strict {
        true
    } else if class is Some && f.len() > 0 && f[0] == '_' {
        false
    } else {
        match class {
            None => is_public_spec(api, f),
            Some(cl) => is_public_spec(api, cl),
        }
    }
}

/// Executable counterpart of [`should_check_spec`].
pub fn should_check_function(
    function_name: &str,
    class_name: Option<&str>,
    public_api: &PublicApi,
    strict_mode: bool,
) -> (r: bool)
    ensures
        r == should_check_spec(
            function_name@,
            match class_name {
                Some(c) => Some(c@),
                None => None,
            },
            public_api@,
            strict_mode,
        ),
{
    proof {
        reveal_strlit("__init__");
    }
    if crate::text::str_eq(function_name, "__init__") {
        return false;
    }
    if strict_mode {
        return true;
    }
    let fn_len = str_len(function_name);
    if class_name.is_some() && fn_len > 0 {
        let c0 = function_name.get_char(0);
        if c0 == '_' {
            return false;
        }
    }
    match class_name {
        None => public_api.is_public(function_name),
        Some(class) => public_api.is_public(class),
    }
}

} // verus!

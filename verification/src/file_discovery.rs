//! File selection: glob exclusion patterns (`*` within a segment, `**`
//! across segments, `?` for one character) and the convention deciding
//! which files of a tree are linted as sources.

use vstd::prelude::*;

use crate::paths::{rel_segments, segments_of};
use crate::paths::{file_name, segments, segments_start_with};
use crate::text::{ends_with_seq, views_of};
use crate::text::{ends_with_exec, str_eq, str_len};

verus! {

/// One element of a compiled glob pattern.
#[derive(Debug, Clone, Copy, PartialEq, Eq, Structural)]
pub enum GlobToken {
    /// A literal character.
    Lit(char),
    /// `?`: any one character except the separator.
    AnyChar,
    /// `*`: any run of characters within one segment.
    AnySeg,
    /// `**`: any run of characters, separators included (a directly
    /// following separator is absorbed).
    AnyDeep,
}

/// The tokens of a glob pattern from index `i` on.
pub open spec fn glob_tokens_from(p: Seq<char>, i: int) -> Seq<GlobToken>
    decreases p.len() - i,
{
    if 0 <= i < p.len() {
        if p[i] == '*' {
            if i + 1 < p.len() && p[i + 1] == '*' {
                let j = if i + 2 < p.len() && p[i + 2] == '/' {
                    i + 3
                } else {
                    i + 2
                };
                seq![GlobToken::AnyDeep] + glob_tokens_from(p, j)
            } else {
                seq![GlobToken::AnySeg] + glob_tokens_from(p, i + 1)
            }
        } else if p[i] == '?' {
            seq![GlobToken::AnyChar] + glob_tokens_from(p, i + 1)
        } else {
            seq![GlobToken::Lit(p[i])] + glob_tokens_from(p, i + 1)
        }
    } else {
        Seq::empty()
    }
}

/// The tokens `toks[ti..]` match some prefix of `t[si..]`.
pub open spec fn glob_match_from(toks: Seq<GlobToken>, t: Seq<char>, ti: int, si: int) -> bool
    decreases toks.len() - ti, t.len() - si,
{
    if !(0 <= ti <= toks.len() && 0 <= si <= t.len()) {
        false
    } else if ti == toks.len() {
        true
    } else {
        match toks[ti] {
            GlobToken::Lit(c) => si < t.len() && t[si] == c && glob_match_from(
                toks,
                t,
                ti + 1,
                si + 1,
            ),
            GlobToken::AnyChar => si < t.len() && t[si] != '/' && glob_match_from(
                toks,
                t,
                ti + 1,
                si + 1,
            ),
            GlobToken::AnySeg => glob_match_from(toks, t, ti + 1, si) || (si < t.len() && t[si]
                != '/' && glob_match_from(toks, t, ti, si + 1)),
            GlobToken::AnyDeep => glob_match_from(toks, t, ti + 1, si) || (si < t.len()
                && glob_match_from(toks, t, ti, si + 1)),
        }
    }
}

/// The compiled pattern matches somewhere in `t` at or after `si`.
pub open spec fn glob_search_from(toks: Seq<GlobToken>, t: Seq<char>, si: int) -> bool
    decreases t.len() - si,
{
    if 0 <= si <= t.len() {
        glob_match_from(toks, t, 0, si) || (si < t.len() && glob_search_from(toks, t, si + 1))
    } else {
        false
    }
}

/// The glob pattern matches somewhere in the text (an unanchored
/// search, as exclusion patterns are applied to whole paths).
pub open spec fn glob_matches(pattern: Seq<char>, text: Seq<char>) -> bool {
    glob_search_from(glob_tokens_from(pattern, 0), text, 0)
}

/// Compile a glob pattern into tokens.
fn glob_compile(pattern: &str) -> (r: Vec<GlobToken>)
    ensures
        r@ == glob_tokens_from(pattern@, 0),
{
    let n = str_len(pattern);
    let mut out: Vec<GlobToken> = Vec::new();
    let mut i: usize = 0;
    while i < n
        invariant
            i <= n,
            n == pattern@.len(),
            glob_tokens_from(pattern@, 0) == out@ + glob_tokens_from(pattern@, i as int),
        decreases n - i,
    {
        let ghost tail = glob_tokens_from(pattern@, i as int);
        let c = pattern.get_char(i);
        let next: usize;
        if c == '*' {
            if i + 1 < n && pattern.get_char(i + 1) == '*' {
                out.push(GlobToken::AnyDeep);
                if i + 2 < n && pattern.get_char(i + 2) == '/' {
                    next = i + 3;
                } else {
                    next = i + 2;
                }
            } else {
                out.push(GlobToken::AnySeg);
                next = i + 1;
            }
        } else if c == '?' {
            out.push(GlobToken::AnyChar);
            next = i + 1;
        } else {
            out.push(GlobToken::Lit(c));
            next = i + 1;
        }
        proof {
            assert(out@ + glob_tokens_from(pattern@, next as int) =~= (out@.drop_last() + tail));
        }
        i = next;
    }
    out
}

/// Executable counterpart of [`glob_match_from`].
fn glob_match_at(toks: &Vec<GlobToken>, t: &str, ti: usize, si: usize) -> (r: bool)
    requires
        ti <= toks@.len(),
        si <= t@.len(),
    ensures
        r == glob_match_from(toks@, t@, ti as int, si as int),
    decreases toks@.len() - ti, t@.len() - si,
{
    let m = toks.len();
    let n = str_len(t);
    if ti == m {
        return true;
    }
    match toks[ti] {
        GlobToken::Lit(c) => si < n && t.get_char(si) == c && glob_match_at(
            toks,
            t,
            ti + 1,
            si + 1,
        ),
        GlobToken::AnyChar => si < n && t.get_char(si) != '/' && glob_match_at(
            toks,
            t,
            ti + 1,
            si + 1,
        ),
        GlobToken::AnySeg => glob_match_at(toks, t, ti + 1, si) || (si < n && t.get_char(si)
            != '/' && glob_match_at(toks, t, ti, si + 1)),
        GlobToken::AnyDeep => glob_match_at(toks, t, ti + 1, si) || (si < n && glob_match_at(
            toks,
            t,
            ti,
            si + 1,
        )),
    }
}

/// Whether a glob exclusion pattern matches a path (see
/// [`glob_matches`]).
pub fn glob_match(pattern: &str, text: &str) -> (r: bool)
    ensures
        r == glob_matches(pattern@, text@),
{
    let toks = glob_compile(pattern);
    let n = str_len(text);
    let mut si: usize = 0;
    let mut found = false;
    loop
        invariant
            si <= n,
            n == text@.len(),
            toks@ == glob_tokens_from(pattern@, 0),
            found ==> glob_matches(pattern@, text@),
            !found ==> glob_matches(pattern@, text@) == glob_search_from(
                toks@,
                text@,
                si as int,
            ),
        ensures
            found == glob_matches(pattern@, text@),
        decreases n - si,
    {
        if glob_match_at(&toks, text, 0, si) {
            found = true;
            break;
        }
        if si >= n {
            break;
        }
        si = si + 1;
    }
    found
}

/// A path component that disqualifies a file: caches, virtual
/// environments, and hidden directories.
pub open spec fn is_excluded_component(s: Seq<char>) -> bool {
    s == "__pycache__"@ || s == ".venv"@ || s == "venv"@ || s == "env"@ || s == ".env"@ || (s.len()
        > 0 && s[0] == '.' && s != "."@ && s != ".."@)
}

/// Some path segment disqualifies the file.
pub open spec fn any_excluded_component(segs: Seq<Seq<char>>) -> bool {
    exists|i: int| 0 <= i < segs.len() && is_excluded_component(segs[i])
}

/// Some exclusion pattern matches the path.
pub open spec fn any_glob_excluded(pats: Seq<Seq<char>>, path: Seq<char>) -> bool {
    exists|i: int| 0 <= i < pats.len() && glob_matches(pats[i], path)
}

/// The file name carries the source-language extension.
pub open spec fn has_py_extension(name: Seq<char>) -> bool {
    ends_with_seq(name, ".py"@) && name.len() > 3
}

/// A file belongs to a source scan: it has the source extension, no
/// disqualifying component, does not lie in a top-level test directory,
/// and no exclusion pattern matches it.
pub open spec fn should_lint_path(path: Seq<char>, root: Seq<char>, pats: Seq<Seq<char>>) -> bool {
    let rel = rel_segments(path, root);
    has_py_extension(crate::paths::file_name_of(path)) && !any_excluded_component(
        segments_of(path),
    ) && !(rel.len() > 0 && (rel[0] == "test"@ || rel[0] == "tests"@)) && !any_glob_excluded(
        pats,
        path,
    )
}

/// Whether a discovered file should be linted (see
/// [`should_lint_path`]).
pub fn should_include_py_file(path: &str, root: &str, exclude_patterns: &Vec<String>) -> (r: bool)
    ensures
        r == should_lint_path(path@, root@, views_of(exclude_patterns@)),
{
    proof {
        reveal_strlit(".py");
        reveal_strlit("__pycache__");
        reveal_strlit(".venv");
        reveal_strlit("venv");
        reveal_strlit("env");
        reveal_strlit(".env");
        reveal_strlit(".");
        reveal_strlit("..");
        reveal_strlit("test");
        reveal_strlit("tests");
        reveal_strlit("src");
    }
    let name = file_name(path);
    let nn = str_len(name);
    if !(ends_with_exec(name, ".py") && nn > 3) {
        return false;
    }
    let segs = segments(path);
    let ghost sv = segments_of(path@);
    let k = segs.len();
    let mut i: usize = 0;
    let mut bad = false;
    loop
        invariant
            i <= k,
            k == sv.len(),
            segs@.len() == sv.len(),
            forall|q: int| 0 <= q < sv.len() ==> segs@[q]@ == sv[q],
            bad ==> any_excluded_component(sv),
            !bad ==> forall|q: int| 0 <= q < i ==> !is_excluded_component(sv[q]),
        ensures
            bad == any_excluded_component(sv),
        decreases k - i,
    {
        if i >= k {
            break;
        }
        let s = segs[i].as_str();
        let sn = str_len(s);
        let mut hidden = false;
        if sn > 0 {
            let c0 = s.get_char(0);
            if c0 == '.' && !str_eq(s, ".") && !str_eq(s, "..") {
                hidden = true;
            }
        }
        if str_eq(s, "__pycache__") || str_eq(s, ".venv") || str_eq(s, "venv") || str_eq(s, "env")
            || str_eq(s, ".env") || hidden {
            bad = true;
            proof {
                assert(is_excluded_component(sv[i as int]));
            }
            break;
        }
        proof {
            assert(!is_excluded_component(sv[i as int]));
        }
        i = i + 1;
    }
    if bad {
        return false;
    }
    let rsegs = segments(root);
    let start: usize = if segments_start_with(&segs, &rsegs) {
        rsegs.len()
    } else {
        0
    };
    let ghost rel = rel_segments(path@, root@);
    proof {
        assert(Seq::new(rsegs@.len(), |q: int| rsegs@[q]@) =~= segments_of(root@));
        assert(Seq::new(segs@.len(), |q: int| segs@[q]@) =~= sv);
        assert(rel =~= sv.subrange(start as int, sv.len() as int));
    }
    if start < k {
        let first = segs[start].as_str();
        if str_eq(first, "test") || str_eq(first, "tests") {
            return false;
        }
    }
    let m = exclude_patterns.len();
    let mut j: usize = 0;
    let mut excluded = false;
    loop
        invariant
            j <= m,
            m == exclude_patterns@.len(),
            excluded ==> any_glob_excluded(views_of(exclude_patterns@), path@),
            !excluded ==> forall|q: int|
                0 <= q < j ==> !glob_matches(views_of(exclude_patterns@)[q], path@),
        ensures
            excluded == any_glob_excluded(views_of(exclude_patterns@), path@),
        decreases m - j,
    {
        if j >= m {
            break;
        }
        if glob_match(exclude_patterns[j].as_str(), path) {
            excluded = true;
            proof {
                assert(glob_matches(views_of(exclude_patterns@)[j as int], path@));
            }
            break;
        }
        proof {
            assert(!glob_matches(views_of(exclude_patterns@)[j as int], path@));
        }
        j = j + 1;
    }
    !excluded
}

} // verus!

//! Suppression directives: a comment of the form `# noqa` (optionally
//! followed by a colon) then a comma-separated list of rule identifiers
//! exempts those rules on the line that carries it.  Identifiers are
//! recognised by their `PL` prefix.

use vstd::prelude::*;

use crate::text::{
    match_at, seq_has, skip_ws, split_seq, starts_with_seq, trim_seq, views_of,
};
use crate::text::{
    match_at_exec, skip_ws_exec, split_char, starts_with_exec, str_len, trim_exec,
    vec_contains_str,
};

verus! {

/// A suppression marker begins at `i`: a `#`, optional whitespace, then
/// the word `noqa`.
pub open spec fn noqa_marker_at(s: Seq<char>, i: int) -> bool {
    0 <= i < s.len() && s[i] == '#' && match_at(s, skip_ws(s, i + 1), "noqa"@)
}

/// First index at or after `i` where a suppression marker begins (the
/// length if none).
pub open spec fn noqa_marker_start(s: Seq<char>, i: int) -> int
    decreases s.len() - i,
{
    if 0 <= i < s.len() {
        if noqa_marker_at(s, i) {
            i
        } else {
            noqa_marker_start(s, i + 1)
        }
    } else {
        i
    }
}

pub proof fn lemma_noqa_marker_start(s: Seq<char>, i: int)
    requires
        0 <= i <= s.len(),
    ensures
        i <= noqa_marker_start(s, i) <= s.len(),
        forall|j: int| i <= j < noqa_marker_start(s, i) ==> !noqa_marker_at(s, j),
        noqa_marker_start(s, i) == s.len() || noqa_marker_at(s, noqa_marker_start(s, i)),
    decreases s.len() - i,
{
    if i < s.len() && !noqa_marker_at(s, i) {
        lemma_noqa_marker_start(s, i + 1);
    }
}

/// Start of the rule list after the marker whose `noqa` word ends at
/// `j`: optional whitespace, an optional colon, then whitespace.
pub open spec fn noqa_list_start(s: Seq<char>, j: int) -> int {
    let k = skip_ws(s, j);
    if k < s.len() && s[k] == ':' {
        skip_ws(s, k + 1)
    } else {
        k
    }
}

/// The distinct rule identifiers among the first `i` comma-separated
/// pieces: each piece is trimmed and kept when it starts with `PL` and
/// is longer than two characters.
pub open spec fn rules_upto(parts: Seq<Seq<char>>, i: int) -> Seq<Seq<char>>
    decreases i,
{
    if i <= 0 {
        Seq::empty()
    } else {
        let prev = rules_upto(parts, i - 1);
        let t = trim_seq(parts[i - 1]);
        if starts_with_seq(t, "PL"@) && t.len() > 2 && !seq_has(prev, t) {
            prev.push(t)
        } else {
            prev
        }
    }
}

/// The rule identifiers suppressed by a line: empty when the line has no
/// suppression marker; otherwise the identifiers listed after it.
pub open spec fn noqa_rules_of(s: Seq<char>) -> Seq<Seq<char>> {
    let st = noqa_marker_start(s, 0);
    if st == s.len() {
        Seq::empty()
    } else {
        let j = skip_ws(s, st + 1) + 4;
        let tail = s.subrange(noqa_list_start(s, j), s.len() as int);
        let parts = split_seq(tail, ',');
        rules_upto(parts, parts.len() as int)
    }
}

/// Whether a line suppresses a given rule identifier.
pub open spec fn suppresses(line: Seq<char>, rule: Seq<char>) -> bool {
    seq_has(noqa_rules_of(line), rule)
}

/// Parse a line's suppression directive and return the distinct rule
/// identifiers it names (empty when the line carries none).
pub fn parse_noqa_rules(line: &str) -> (r: Vec<String>)
    ensures
        views_of(r@) == noqa_rules_of(line@),
{
    let n = str_len(line);
    let mut i: usize = 0;
    loop
        invariant
            i <= n,
            n == line@.len(),
            noqa_marker_start(line@, 0) == noqa_marker_start(line@, i as int),
        ensures
            i <= n,
            noqa_marker_start(line@, 0) == i as int,
        decreases n - i,
    {
        if i >= n {
            break;
        }
        if line.get_char(i) == '#' {
            let j = skip_ws_exec(line, i + 1);
            proof {
                reveal_strlit("noqa");
            }
            if match_at_exec(line, j, "noqa") {
                proof {
                    assert(noqa_marker_at(line@, i as int));
                }
                break;
            }
        }
        proof {
            assert(!noqa_marker_at(line@, i as int));
        }
        i = i + 1;
    }
    if i == n {
        let r: Vec<String> = Vec::new();
        proof {
            assert(views_of(r@) =~= noqa_rules_of(line@));
        }
        return r;
    }
    proof {
        lemma_noqa_marker_start(line@, 0);
        reveal_strlit("noqa");
    }
    let jw = skip_ws_exec(line, i + 1);
    proof {
        assert(noqa_marker_at(line@, i as int));
        assert(match_at(line@, jw as int, "noqa"@));
        assert(jw + 4 <= n);
    }
    let j = jw + 4;
    let k = skip_ws_exec(line, j);
    let start = if k < n && line.get_char(k) == ':' {
        skip_ws_exec(line, k + 1)
    } else {
        k
    };
    let tail = line.substring_char(start, n);
    proof {
        assert(tail@ == line@.subrange(noqa_list_start(line@, j as int), line@.len() as int));
    }
    let parts = split_char(tail, ',');
    let ghost pv = split_seq(tail@, ',');
    let m = parts.len();
    let mut out: Vec<String> = Vec::new();
    let mut idx: usize = 0;
    while idx < m
        invariant
            idx <= m,
            m == pv.len(),
            parts@.len() == pv.len(),
            forall|q: int| 0 <= q < pv.len() ==> parts@[q]@ == pv[q],
            views_of(out@) == rules_upto(pv, idx as int),
        decreases m - idx,
    {
        let t = trim_exec(parts[idx].as_str());
        proof {
            reveal_strlit("PL");
        }
        let tn = str_len(t);
        if starts_with_exec(t, "PL") && tn > 2 && !vec_contains_str(&out, t) {
            out.push(String::from_str(t));
            proof {
                assert(views_of(out@) =~= rules_upto(pv, idx + 1));
            }
        } else {
            proof {
                assert(views_of(out@) =~= rules_upto(pv, idx + 1));
            }
        }
        idx = idx + 1;
    }
    proof {
        assert(views_of(out@) =~= noqa_rules_of(line@));
    }
    out
}

/// Whether the line suppresses `rule` (see [`suppresses`]).
pub fn line_suppresses(line: &str, rule: &str) -> (r: bool)
    ensures
        r == suppresses(line@, rule@),
{
    let rules = parse_noqa_rules(line);
    vec_contains_str(&rules, rule)
}

} // verus!

//! Path reasoning on plain strings: file names and stems, path segments,
//! the dotted module path of a source file, and the expected location of
//! a test file for a module and tier.  Paths are modelled as strings with
//! `/` separators and no trailing separator.

use vstd::prelude::*;

use crate::text::{ends_with_seq, find_char, lemma_find_char};
use crate::text::{ends_with_exec, find_char_exec, str_eq, str_len};

verus! {

/// Index just after the last `/` of `s` (0 when `s` has none).
pub open spec fn last_sep_end(s: Seq<char>, i: int) -> int
    decreases i,
{
    if i <= 0 {
        0
    } else if s[i - 1] == '/' {
        i
    } else {
        last_sep_end(s, i - 1)
    }
}

/// The final path segment: everything after the last `/`.
pub open spec fn file_name_of(s: Seq<char>) -> Seq<char> {
    s.subrange(last_sep_end(s, s.len() as int), s.len() as int)
}

/// Index of the last `.` of `s` (-1 when `s` has none).
pub open spec fn last_dot(s: Seq<char>, i: int) -> int
    decreases i,
{
    if i <= 0 {
        -1
    } else if s[i - 1] == '.' {
        i - 1
    } else {
        last_dot(s, i - 1)
    }
}

/// The file name without its extension: the part of the final segment
/// before its last `.`, except that a name whose only `.` leads remains
/// whole.
pub open spec fn file_stem_of(s: Seq<char>) -> Seq<char> {
    let name = file_name_of(s);
    let d = last_dot(name, name.len() as int);
    if d > 0 {
        name.subrange(0, d)
    } else {
        name
    }
}

/// The path up to (not including) the last `/`.
pub open spec fn parent_of(s: Seq<char>) -> Seq<char> {
    let e = last_sep_end(s, s.len() as int);
    if e == 0 {
        Seq::empty()
    } else {
        s.subrange(0, e - 1)
    }
}

/// The non-empty `/`-separated segments of a path, from index `i` on.
pub open spec fn segs_from(s: Seq<char>, i: int) -> Seq<Seq<char>>
    decreases s.len() - i,
    via segs_from_decreases
{
    if 0 <= i < s.len() {
        let k = find_char(s, i, '/');
        let piece = s.subrange(i, k);
        let rest = if k == s.len() {
            Seq::empty()
        } else {
            segs_from(s, k + 1)
        };
        if piece.len() == 0 {
            rest
        } else {
            seq![piece] + rest
        }
    } else {
        Seq::empty()
    }
}

#[via_fn]
proof fn segs_from_decreases(s: Seq<char>, i: int) {
    if 0 <= i < s.len() {
        lemma_find_char(s, i, '/');
    }
}

/// The non-empty `/`-separated segments of a path.
pub open spec fn segments_of(s: Seq<char>) -> Seq<Seq<char>> {
    segs_from(s, 0)
}

/// `b` is a (segment-aligned) suffix of `a`.
pub open spec fn seg_suffix(a: Seq<Seq<char>>, b: Seq<Seq<char>>) -> bool {
    b.len() <= a.len() && a.subrange(a.len() - b.len(), a.len() as int) == b
}

/// `b` is a (segment-aligned) prefix of `a`.
pub open spec fn seg_prefix(a: Seq<Seq<char>>, b: Seq<Seq<char>>) -> bool {
    b.len() <= a.len() && a.subrange(0, b.len() as int) == b
}

/// A path segment with a `.py` extension removed.
pub open spec fn strip_py(seg: Seq<char>) -> Seq<char> {
    if ends_with_seq(seg, ".py"@) {
        seg.subrange(0, seg.len() - 3)
    } else {
        seg
    }
}

/// The module-name parts of the first `i` path segments: each segment
/// with its `.py` extension removed, package initialisers and empty
/// parts dropped.
pub open spec fn module_parts_upto(segs: Seq<Seq<char>>, i: int) -> Seq<Seq<char>>
    decreases i,
{
    if i <= 0 {
        Seq::empty()
    } else {
        let prev = module_parts_upto(segs, i - 1);
        let p = strip_py(segs[i - 1]);
        if p.len() == 0 || p == "__init__"@ {
            prev
        } else {
            prev.push(p)
        }
    }
}

/// The first `i` parts joined with a separator character.
pub open spec fn join_upto(parts: Seq<Seq<char>>, sep: char, i: int) -> Seq<char>
    decreases i,
{
    if i <= 0 {
        Seq::empty()
    } else if i == 1 {
        parts[0]
    } else {
        join_upto(parts, sep, i - 1) + seq![sep] + parts[i - 1]
    }
}

/// The segments of `path` relative to `root`: with `root`'s segments
/// stripped when they are a prefix, the whole path's otherwise.
pub open spec fn rel_segments(path: Seq<char>, root: Seq<char>) -> Seq<Seq<char>> {
    let ps = segments_of(path);
    let rs = segments_of(root);
    if seg_prefix(ps, rs) {
        ps.subrange(rs.len() as int, ps.len() as int)
    } else {
        ps
    }
}

/// The dotted module path of a source file: its path relative to the
/// project root, a leading `src` segment dropped, `.py` extensions and
/// package-initialiser segments elided, the rest joined with `.`.
pub open spec fn module_path_of(path: Seq<char>, root: Seq<char>) -> Seq<char> {
    let rel = rel_segments(path, root);
    let rel2 = if rel.len() > 0 && rel[0] == "src"@ {
        rel.drop_first()
    } else {
        rel
    };
    let parts = module_parts_upto(rel2, rel2.len() as int);
    join_upto(parts, '.', parts.len() as int)
}

/// A base path extended by the first `i` parts, each behind a `/`.
pub open spec fn push_segs(base: Seq<char>, parts: Seq<Seq<char>>, i: int) -> Seq<char>
    decreases i,
{
    if i <= 0 {
        base
    } else {
        push_segs(base, parts, i - 1) + seq!['/'] + parts[i - 1]
    }
}

/// Composition of two paths, as path joining does it: a separator is
/// added unless the left side is empty or already ends with one.
pub open spec fn join_path(a: Seq<char>, b: Seq<char>) -> Seq<char> {
    if a.len() == 0 {
        b
    } else if a[a.len() - 1] == '/' {
        a + b
    } else {
        a + seq!['/'] + b
    }
}

/// Executable counterpart of [`join_path`].
pub fn join_path_exec(a: &str, b: &str) -> (r: String)
    ensures
        r@ == join_path(a@, b@),
{
    let n = str_len(a);
    if n == 0 {
        return String::from_str(b);
    }
    let c = a.get_char(n - 1);
    let mut s = String::from_str(a);
    if c != '/' {
        s.append("/");
        proof {
            reveal_strlit("/");
            assert(s@ =~= a@ + seq!['/']);
        }
    }
    s.append(b);
    proof {
        if c != '/' {
            assert(s@ =~= a@ + seq!['/'] + b@);
        }
    }
    s
}

/// Derive the dotted module path of a source file (see
/// [`module_path_of`]).
pub fn get_module_path(file_path: &str, project_root: &str) -> (r: String)
    ensures
        r@ == module_path_of(file_path@, project_root@),
{
    let ps = segments(file_path);
    let rs = segments(project_root);
    let ghost psv = Seq::new(ps@.len(), |i: int| ps@[i]@);
    let ghost rsv = Seq::new(rs@.len(), |i: int| rs@[i]@);
    proof {
        assert(psv =~= segments_of(file_path@));
        assert(rsv =~= segments_of(project_root@));
    }
    let mut start: usize = if segments_start_with(&ps, &rs) {
        rs.len()
    } else {
        0
    };
    let ghost rel = rel_segments(file_path@, project_root@);
    proof {
        assert(rel =~= psv.subrange(start as int, psv.len() as int));
    }
    proof {
        reveal_strlit("src");
    }
    if start < ps.len() && str_eq(ps[start].as_str(), "src") {
        start = start + 1;
    }
    let ghost rel2 = if rel.len() > 0 && rel[0] == "src"@ {
        rel.drop_first()
    } else {
        rel
    };
    proof {
        assert(rel2 =~= psv.subrange(start as int, psv.len() as int));
    }
    let n = ps.len();
    let mut parts: Vec<String> = Vec::new();
    let mut j: usize = 0;
    while j < n - start
        invariant
            start <= n,
            j <= n - start,
            n == ps@.len(),
            psv.len() == n,
            forall|q: int| 0 <= q < psv.len() ==> psv[q] == ps@[q]@,
            rel2 =~= psv.subrange(start as int, psv.len() as int),
            Seq::new(parts@.len(), |q: int| parts@[q]@) == module_parts_upto(rel2, j as int),
        decreases n - start - j,
    {
        let seg = ps[start + j].as_str();
        let sn = str_len(seg);
        proof {
            reveal_strlit(".py");
            reveal_strlit("__init__");
            assert(rel2[j as int] == seg@);
        }
        let stripped = if ends_with_exec(seg, ".py") {
            seg.substring_char(0, sn - 3)
        } else {
            seg
        };
        proof {
            assert(stripped@ == strip_py(rel2[j as int]));
        }
        let stn = str_len(stripped);
        if stn > 0 && !str_eq(stripped, "__init__") {
            parts.push(String::from_str(stripped));
        }
        proof {
            assert(Seq::new(parts@.len(), |q: int| parts@[q]@) =~= module_parts_upto(
                rel2,
                j + 1,
            ));
        }
        j = j + 1;
    }
    let ghost partsv = module_parts_upto(rel2, rel2.len() as int);
    proof {
        assert(rel2.len() == n - start);
        assert(Seq::new(parts@.len(), |q: int| parts@[q]@) == partsv);
    }
    let m = parts.len();
    let mut out = String::new();
    let mut idx: usize = 0;
    while idx < m
        invariant
            idx <= m,
            m == parts@.len(),
            partsv.len() == m,
            forall|q: int| 0 <= q < partsv.len() ==> partsv[q] == parts@[q]@,
            out@ == join_upto(partsv, '.', idx as int),
        decreases m - idx,
    {
        if idx > 0 {
            out.append(".");
            proof {
                reveal_strlit(".");
            }
        }
        out.append(parts[idx].as_str());
        proof {
            if idx == 0 {
                assert(out@ =~= join_upto(partsv, '.', 1));
            } else {
                assert(out@ =~= join_upto(partsv, '.', idx + 1));
            }
        }
        idx = idx + 1;
    }
    out
}

/// Executable counterpart of [`file_name_of`].
pub fn file_name(s: &str) -> (r: &str)
    ensures
        r@ == file_name_of(s@),
{
    let n = str_len(s);
    let mut i: usize = n;
    loop
        invariant
            0 <= i <= n,
            n == s@.len(),
            last_sep_end(s@, n as int) == last_sep_end(s@, i as int),
        ensures
            i <= n,
            last_sep_end(s@, n as int) == i as int,
        decreases i,
    {
        if i == 0 {
            break;
        }
        if s.get_char(i - 1) == '/' {
            break;
        }
        i = i - 1;
    }
    s.substring_char(i, n)
}

/// Executable counterpart of [`file_stem_of`].
pub fn file_stem(s: &str) -> (r: &str)
    ensures
        r@ == file_stem_of(s@),
{
    let name = file_name(s);
    let n = str_len(name);
    let mut i: usize = n;
    loop
        invariant
            0 <= i <= n,
            n == name@.len(),
            last_dot(name@, n as int) == last_dot(name@, i as int),
        ensures
            i <= n,
            last_dot(name@, n as int) == if i == 0 {
                -1
            } else {
                i - 1
            },
        decreases i,
    {
        if i == 0 {
            break;
        }
        if name.get_char(i - 1) == '.' {
            break;
        }
        i = i - 1;
    }
    if i > 1 {
        name.substring_char(0, i - 1)
    } else {
        name
    }
}

/// Executable counterpart of [`parent_of`].
pub fn parent_dir(s: &str) -> (r: &str)
    ensures
        r@ == parent_of(s@),
{
    let n = str_len(s);
    let mut i: usize = n;
    loop
        invariant
            0 <= i <= n,
            n == s@.len(),
            last_sep_end(s@, n as int) == last_sep_end(s@, i as int),
        ensures
            i <= n,
            last_sep_end(s@, n as int) == i as int,
        decreases i,
    {
        if i == 0 {
            break;
        }
        if s.get_char(i - 1) == '/' {
            break;
        }
        i = i - 1;
    }
    if i == 0 {
        let e = "";
        proof {
            reveal_strlit("");
            assert(e@ =~= parent_of(s@));
        }
        e
    } else {
        s.substring_char(0, i - 1)
    }
}

/// Executable counterpart of [`segments_of`].
pub fn segments(s: &str) -> (r: Vec<String>)
    ensures
        r@.len() == segments_of(s@).len(),
        forall|i: int| 0 <= i < r@.len() ==> r@[i]@ == segments_of(s@)[i],
{
    let n = str_len(s);
    let mut out: Vec<String> = Vec::new();
    let mut pos: usize = 0;
    loop
        invariant_except_break
            segments_of(s@).len() == out@.len() + segs_from(s@, pos as int).len(),
            forall|i: int| 0 <= i < out@.len() ==> out@[i]@ == segments_of(s@)[i],
            forall|i: int|
                0 <= i < segs_from(s@, pos as int).len() ==> segs_from(s@, pos as int)[i]
                    == segments_of(s@)[out@.len() + i],
        invariant
            pos <= n,
            n == s@.len(),
        ensures
            out@.len() == segments_of(s@).len(),
            forall|i: int| 0 <= i < out@.len() ==> out@[i]@ == segments_of(s@)[i],
        decreases n - pos,
    {
        if pos >= n {
            break;
        }
        let k = find_char_exec(s, pos, '/');
        proof {
            lemma_find_char(s@, pos as int, '/');
        }
        let ghost tail = segs_from(s@, pos as int);
        let ghost old_len = out@.len();
        if k > pos {
            let piece = s.substring_char(pos, k);
            out.push(String::from_str(piece));
            proof {
                assert(segs_from(s@, pos as int)[0] == s@.subrange(pos as int, k as int));
                if k < n {
                    assert(tail =~= seq![s@.subrange(pos as int, k as int)] + segs_from(
                        s@,
                        k + 1,
                    ));
                    assert(forall|i: int|
                        0 <= i < segs_from(s@, k + 1).len() ==> #[trigger] segs_from(s@, k + 1)[i]
                            == segs_from(s@, pos as int)[i + 1]);
                } else {
                    assert(tail =~= seq![s@.subrange(pos as int, k as int)]);
                }
                assert(out@[old_len as int]@ == segments_of(s@)[old_len as int]);
            }
        } else {
            proof {
                if k < n {
                    assert(tail =~= segs_from(s@, k + 1));
                    assert(forall|i: int|
                        0 <= i < segs_from(s@, k + 1).len() ==> #[trigger] segs_from(s@, k + 1)[i]
                            == segs_from(s@, pos as int)[i]);
                } else {
                    assert(tail =~= Seq::<Seq<char>>::empty());
                }
            }
        }
        if k >= n {
            break;
        }
        pos = k + 1;
    }
    out
}

/// Whether the segment list of `b` is a suffix of that of `a`.
pub fn segments_end_with(a: &Vec<String>, b: &Vec<String>) -> (r: bool)
    ensures
        r == seg_suffix(
            Seq::new(a@.len(), |i: int| a@[i]@),
            Seq::new(b@.len(), |i: int| b@[i]@),
        ),
{
    let ghost av = Seq::new(a@.len(), |i: int| a@[i]@);
    let ghost bv = Seq::new(b@.len(), |i: int| b@[i]@);
    let n = a.len();
    let m = b.len();
    if m > n {
        return false;
    }
    let off = n - m;
    let mut j: usize = 0;
    let mut ok = true;
    loop
        invariant
            j <= m,
            m <= n,
            n == av.len(),
            m == bv.len(),
            off == n - m,
            a@.len() == n,
            b@.len() == m,
            forall|i: int| 0 <= i < av.len() ==> av[i] == a@[i]@,
            forall|i: int| 0 <= i < bv.len() ==> bv[i] == b@[i]@,
            ok ==> forall|i: int| 0 <= i < j ==> av[off + i] == bv[i],
            !ok ==> !seg_suffix(av, bv),
        ensures
            ok == seg_suffix(av, bv),
        decreases m - j,
    {
        if j >= m {
            proof {
                if ok {
                    assert(av.subrange(av.len() - bv.len(), av.len() as int) =~= bv);
                }
            }
            break;
        }
        if !str_eq(a[off + j].as_str(), b[j].as_str()) {
            ok = false;
            proof {
                assert(av.subrange(av.len() - bv.len(), av.len() as int)[j as int] == av[off + j]);
            }
            break;
        }
        j = j + 1;
    }
    ok
}

/// Whether the segment list of `b` is a prefix of that of `a`.
pub fn segments_start_with(a: &Vec<String>, b: &Vec<String>) -> (r: bool)
    ensures
        r == seg_prefix(
            Seq::new(a@.len(), |i: int| a@[i]@),
            Seq::new(b@.len(), |i: int| b@[i]@),
        ),
{
    let ghost av = Seq::new(a@.len(), |i: int| a@[i]@);
    let ghost bv = Seq::new(b@.len(), |i: int| b@[i]@);
    let n = a.len();
    let m = b.len();
    if m > n {
        return false;
    }
    let mut j: usize = 0;
    let mut ok = true;
    loop
        invariant
            j <= m,
            m <= n,
            n == av.len(),
            m == bv.len(),
            a@.len() == n,
            b@.len() == m,
            forall|i: int| 0 <= i < av.len() ==> av[i] == a@[i]@,
            forall|i: int| 0 <= i < bv.len() ==> bv[i] == b@[i]@,
            ok ==> forall|i: int| 0 <= i < j ==> av[i] == bv[i],
            !ok ==> !seg_prefix(av, bv),
        ensures
            ok == seg_prefix(av, bv),
        decreases m - j,
    {
        if j >= m {
            proof {
                if ok {
                    assert(av.subrange(0, bv.len() as int) =~= bv);
                }
            }
            break;
        }
        if !str_eq(a[j].as_str(), b[j].as_str()) {
            ok = false;
            proof {
                assert(av.subrange(0, bv.len() as int)[j as int] == av[j as int]);
            }
            break;
        }
        j = j + 1;
    }
    ok
}

} // verus!

//! Low-level text scanning primitives shared by every component: character
//! classes, whitespace/word runs, substring search, and line splitting.
//! Each executable scanner is proved equal to a recursive specification
//! over the string's character sequence.

use vstd::prelude::*;

verus! {

/// Character treated as horizontal whitespace by the line scanners.
pub open spec fn is_space_char(c: char) -> bool {
    c == ' ' || c == '\t'
}

/// Character of an identifier: ASCII letter, digit, or underscore.
pub open spec fn is_word_char(c: char) -> bool {
    ('a' <= c && c <= 'z') || ('A' <= c && c <= 'Z') || ('0' <= c && c <= '9') || c == '_'
}

/// ASCII uppercase letter.
pub open spec fn is_upper_char(c: char) -> bool {
    'A' <= c && c <= 'Z'
}

/// First index at or after `i` whose character is not horizontal whitespace
/// (the string's length if all remaining characters are whitespace).
pub open spec fn skip_ws(s: Seq<char>, i: int) -> int
    decreases s.len() - i,
{
    if 0 <= i < s.len() && is_space_char(s[i]) {
        skip_ws(s, i + 1)
    } else {
        i
    }
}

pub proof fn lemma_skip_ws(s: Seq<char>, i: int)
    requires
        0 <= i <= s.len(),
    ensures
        i <= skip_ws(s, i) <= s.len(),
        forall|j: int| i <= j < skip_ws(s, i) ==> is_space_char(s[j]),
        skip_ws(s, i) == s.len() || !is_space_char(s[skip_ws(s, i)]),
    decreases s.len() - i,
{
    if i < s.len() && is_space_char(s[i]) {
        lemma_skip_ws(s, i + 1);
    }
}

/// First index at or after `i` whose character is not a word character.
pub open spec fn skip_word(s: Seq<char>, i: int) -> int
    decreases s.len() - i,
{
    if 0 <= i < s.len() && is_word_char(s[i]) {
        skip_word(s, i + 1)
    } else {
        i
    }
}

/// First index at or after `i` holding character `c` (the length if none).
pub open spec fn find_char(s: Seq<char>, i: int, c: char) -> int
    decreases s.len() - i,
{
    if 0 <= i < s.len() {
        if s[i] == c {
            i
        } else {
            find_char(s, i + 1, c)
        }
    } else {
        i
    }
}

pub proof fn lemma_find_char(s: Seq<char>, i: int, c: char)
    requires
        0 <= i <= s.len(),
    ensures
        i <= find_char(s, i, c) <= s.len(),
        forall|j: int| i <= j < find_char(s, i, c) ==> s[j] != c,
        find_char(s, i, c) == s.len() || s[find_char(s, i, c)] == c,
    decreases s.len() - i,
{
    if i < s.len() && s[i] != c {
        lemma_find_char(s, i + 1, c);
    }
}

/// The pattern occurs in `s` starting exactly at index `i`.
pub open spec fn match_at(s: Seq<char>, i: int, pat: Seq<char>) -> bool {
    0 <= i && i + pat.len() <= s.len() && s.subrange(i, i + pat.len()) == pat
}

/// The pattern occurs somewhere in `s`.
pub open spec fn contains_seq(s: Seq<char>, pat: Seq<char>) -> bool {
    exists|i: int| match_at(s, i, pat)
}

/// `s` starts with `pat`.
pub open spec fn starts_with_seq(s: Seq<char>, pat: Seq<char>) -> bool {
    match_at(s, 0, pat)
}

/// `s` ends with `pat`.
pub open spec fn ends_with_seq(s: Seq<char>, pat: Seq<char>) -> bool {
    pat.len() <= s.len() && match_at(s, s.len() - pat.len(), pat)
}

/// Number of characters of `s`, as a machine integer.
pub fn str_len(s: &str) -> (n: usize)
    ensures
        n == s@.len(),
{
    s.unicode_len()
}

/// Executable counterpart of [`skip_ws`].
pub fn skip_ws_exec(s: &str, from: usize) -> (r: usize)
    requires
        from <= s@.len(),
    ensures
        r == skip_ws(s@, from as int),
        from <= r <= s@.len(),
{
    let n = s.unicode_len();
    let mut i: usize = from;
    loop
        invariant
            from <= i <= n,
            n == s@.len(),
            skip_ws(s@, from as int) == skip_ws(s@, i as int),
        ensures
            i <= n,
            skip_ws(s@, from as int) == i as int,
        decreases n - i,
    {
        if i >= n {
            break;
        }
        let c = s.get_char(i);
        if c != ' ' && c != '\t' {
            break;
        }
        i = i + 1;
    }
    i
}

/// Executable counterpart of [`skip_word`].
pub fn skip_word_exec(s: &str, from: usize) -> (r: usize)
    requires
        from <= s@.len(),
    ensures
        r == skip_word(s@, from as int),
        from <= r <= s@.len(),
{
    let n = s.unicode_len();
    let mut i: usize = from;
    loop
        invariant
            from <= i <= n,
            n == s@.len(),
            skip_word(s@, from as int) == skip_word(s@, i as int),
        ensures
            i <= n,
            skip_word(s@, from as int) == i as int,
        decreases n - i,
    {
        if i >= n {
            break;
        }
        let c = s.get_char(i);
        let word = ('a' <= c && c <= 'z') || ('A' <= c && c <= 'Z') || ('0' <= c && c <= '9')
            || c == '_';
        if !word {
            break;
        }
        i = i + 1;
    }
    i
}

/// Executable counterpart of [`find_char`].
pub fn find_char_exec(s: &str, from: usize, c: char) -> (r: usize)
    requires
        from <= s@.len(),
    ensures
        r == find_char(s@, from as int, c),
        from <= r <= s@.len(),
{
    let n = s.unicode_len();
    let mut i: usize = from;
    loop
        invariant
            from <= i <= n,
            n == s@.len(),
            find_char(s@, from as int, c) == find_char(s@, i as int, c),
        ensures
            i <= n,
            find_char(s@, from as int, c) == i as int,
        decreases n - i,
    {
        if i >= n {
            break;
        }
        if s.get_char(i) == c {
            break;
        }
        i = i + 1;
    }
    i
}

/// Executable counterpart of [`match_at`].
pub fn match_at_exec(s: &str, i: usize, pat: &str) -> (r: bool)
    requires
        i <= s@.len(),
    ensures
        r == match_at(s@, i as int, pat@),
{
    let n = s.unicode_len();
    let m = pat.unicode_len();
    if m > n - i {
        assert(!match_at(s@, i as int, pat@));
        return false;
    }
    let mut j: usize = 0;
    loop
        invariant
            j <= m,
            i + m <= n,
            n == s@.len(),
            m == pat@.len(),
            forall|k: int| 0 <= k < j ==> s@[i + k] == pat@[k],
        ensures
            (j == m && forall|k: int| 0 <= k < m ==> s@[i + k] == pat@[k]) || !match_at(
                s@,
                i as int,
                pat@,
            ),
        decreases m - j,
    {
        if j >= m {
            break;
        }
        let cs = s.get_char(i + j);
        let cp = pat.get_char(j);
        if cs != cp {
            proof {
                assert(s@.subrange(i as int, i + pat@.len()) != pat@) by {
                    assert(s@.subrange(i as int, i + pat@.len())[j as int] == s@[i + j]);
                }
            }
            break;
        }
        j = j + 1;
    }
    if j == m {
        proof {
            assert(s@.subrange(i as int, i + pat@.len()) =~= pat@);
        }
        true
    } else {
        false
    }
}

/// Whether `pat` occurs anywhere in `s`.
pub fn contains_exec(s: &str, pat: &str) -> (r: bool)
    ensures
        r == contains_seq(s@, pat@),
{
    let n = s.unicode_len();
    let m = pat.unicode_len();
    if m > n {
        proof {
            assert(forall|i: int| !match_at(s@, i, pat@));
        }
        return false;
    }
    let mut i: usize = 0;
    let mut found = false;
    loop
        invariant
            i <= n - m,
            m <= n,
            n == s@.len(),
            m == pat@.len(),
            found ==> match_at(s@, i as int, pat@),
            !found ==> forall|j: int| 0 <= j < i ==> !match_at(s@, j, pat@),
        ensures
            found == contains_seq(s@, pat@),
        decreases n - m - i + 1,
    {
        if match_at_exec(s, i, pat) {
            found = true;
            break;
        }
        if i >= n - m {
            proof {
                assert(forall|j: int| j > i ==> !match_at(s@, j, pat@));
            }
            break;
        }
        i = i + 1;
    }
    found
}

/// Whether `s` starts with `pat`.
pub fn starts_with_exec(s: &str, pat: &str) -> (r: bool)
    ensures
        r == starts_with_seq(s@, pat@),
{
    match_at_exec(s, 0, pat)
}

/// Whether `s` ends with `pat`.
pub fn ends_with_exec(s: &str, pat: &str) -> (r: bool)
    ensures
        r == ends_with_seq(s@, pat@),
{
    let n = s.unicode_len();
    let m = pat.unicode_len();
    if m > n {
        return false;
    }
    match_at_exec(s, n - m, pat)
}

/// Index ending the trailing whitespace run that finishes at `i`
/// (scanning leftward from `i`).
pub open spec fn rskip_ws(s: Seq<char>, i: int) -> int
    decreases i,
{
    if 0 < i <= s.len() && is_space_char(s[i - 1]) {
        rskip_ws(s, i - 1)
    } else {
        i
    }
}

/// The characters of `s` with leading and trailing whitespace removed.
pub open spec fn trim_seq(s: Seq<char>) -> Seq<char> {
    let l = skip_ws(s, 0);
    if l == s.len() {
        Seq::empty()
    } else {
        s.subrange(l, rskip_ws(s, s.len() as int))
    }
}

/// Executable counterpart of [`trim_seq`].
pub fn trim_exec<'a>(s: &'a str) -> (r: &'a str)
    ensures
        r@ == trim_seq(s@),
{
    let n = s.unicode_len();
    let l = skip_ws_exec(s, 0);
    proof {
        lemma_skip_ws(s@, 0);
    }
    if l == n {
        let e = "";
        proof {
            reveal_strlit("");
            assert(e@ =~= trim_seq(s@));
        }
        return e;
    }
    let mut r: usize = n;
    loop
        invariant
            l < r <= n,
            n == s@.len(),
            l == skip_ws(s@, 0),
            l < s@.len(),
            !is_space_char(s@[l as int]),
            rskip_ws(s@, n as int) == rskip_ws(s@, r as int),
        ensures
            l < r <= n,
            rskip_ws(s@, n as int) == r as int,
        decreases r,
    {
        let c = s.get_char(r - 1);
        if c != ' ' && c != '\t' {
            break;
        }
        if r - 1 == l {
            proof {
                assert(!is_space_char(s@[l as int]));
            }
            break;
        }
        r = r - 1;
    }
    s.substring_char(l, r)
}

/// A line with a final carriage return removed, as `str::lines` does.
pub open spec fn strip_cr(s: Seq<char>) -> Seq<char> {
    if s.len() > 0 && s[s.len() - 1] == '\r' {
        s.subrange(0, s.len() - 1)
    } else {
        s
    }
}

/// The lines of `s` starting at index `i`: split on `'\n'`, no trailing
/// empty line for a terminating newline, carriage returns stripped.
pub open spec fn lines_from(s: Seq<char>, i: int) -> Seq<Seq<char>>
    decreases s.len() - i,
    via lines_from_decreases
{
    if 0 <= i < s.len() {
        let k = find_char(s, i, '\n');
        if k == s.len() {
            seq![strip_cr(s.subrange(i, k))]
        } else {
            seq![strip_cr(s.subrange(i, k))] + lines_from(s, k + 1)
        }
    } else {
        Seq::empty()
    }
}

#[via_fn]
proof fn lines_from_decreases(s: Seq<char>, i: int) {
    if 0 <= i < s.len() {
        lemma_find_char(s, i, '\n');
    }
}

/// The lines of `s`, as `str::lines` yields them.
pub open spec fn lines_of(s: Seq<char>) -> Seq<Seq<char>> {
    lines_from(s, 0)
}

/// Split `s` into its lines.
pub fn split_lines(s: &str) -> (r: Vec<String>)
    ensures
        r@.len() == lines_of(s@).len(),
        forall|i: int| 0 <= i < r@.len() ==> r@[i]@ == lines_of(s@)[i],
{
    let n = s.unicode_len();
    let mut out: Vec<String> = Vec::new();
    let mut pos: usize = 0;
    loop
        invariant_except_break
            lines_of(s@).len() == out@.len() + lines_from(s@, pos as int).len(),
            forall|i: int| 0 <= i < out@.len() ==> out@[i]@ == lines_of(s@)[i],
            forall|i: int|
                0 <= i < lines_from(s@, pos as int).len() ==> lines_from(s@, pos as int)[i]
                    == lines_of(s@)[out@.len() + i],
        invariant
            pos <= n,
            n == s@.len(),
        ensures
            out@.len() == lines_of(s@).len(),
            forall|i: int| 0 <= i < out@.len() ==> out@[i]@ == lines_of(s@)[i],
        decreases n - pos,
    {
        if pos >= n {
            break;
        }
        let k = find_char_exec(s, pos, '\n');
        proof {
            lemma_find_char(s@, pos as int, '\n');
        }
        let piece = s.substring_char(pos, k);
        let line = if k > pos && piece.get_char(k - pos - 1) == '\r' {
            let t = s.substring_char(pos, k - 1);
            proof {
                assert(t@ =~= strip_cr(piece@));
            }
            t
        } else {
            proof {
                assert(piece@ == strip_cr(piece@));
            }
            piece
        };
        let ghost tail = lines_from(s@, pos as int);
        proof {
            assert(tail[0] == strip_cr(s@.subrange(pos as int, find_char(s@, pos as int, '\n'))));
        }
        out.push(String::from_str(line));
        if k >= n {
            proof {
                assert(tail =~= seq![strip_cr(s@.subrange(pos as int, k as int))]);
                assert(out@[out@.len() - 1]@ == lines_of(s@)[out@.len() - 1]);
            }
            break;
        }
        proof {
            assert(tail =~= seq![strip_cr(s@.subrange(pos as int, k as int))] + lines_from(
                s@,
                k + 1,
            ));
            assert(forall|i: int|
                0 <= i < lines_from(s@, k + 1).len() ==> #[trigger] lines_from(s@, k + 1)[i]
                    == tail[i + 1]);
        }
        pos = k + 1;
    }
    out
}

/// The pieces of `s` from index `i` on, split on `sep`, empty pieces
/// kept (as `str::split` yields them).
pub open spec fn split_from(s: Seq<char>, i: int, sep: char) -> Seq<Seq<char>>
    decreases s.len() - i,
    via split_from_decreases
{
    if 0 <= i <= s.len() {
        let k = find_char(s, i, sep);
        if k >= s.len() {
            seq![s.subrange(i, s.len() as int)]
        } else {
            seq![s.subrange(i, k)] + split_from(s, k + 1, sep)
        }
    } else {
        Seq::empty()
    }
}

#[via_fn]
proof fn split_from_decreases(s: Seq<char>, i: int, sep: char) {
    if 0 <= i <= s.len() {
        lemma_find_char(s, i, sep);
    }
}

/// The pieces of `s` split on `sep`, empty pieces kept.
pub open spec fn split_seq(s: Seq<char>, sep: char) -> Seq<Seq<char>> {
    split_from(s, 0, sep)
}

/// Split `s` on a separator character, keeping empty pieces.
pub fn split_char(s: &str, sep: char) -> (r: Vec<String>)
    ensures
        r@.len() == split_seq(s@, sep).len(),
        forall|i: int| 0 <= i < r@.len() ==> r@[i]@ == split_seq(s@, sep)[i],
{
    let n = s.unicode_len();
    let mut out: Vec<String> = Vec::new();
    let mut pos: usize = 0;
    loop
        invariant_except_break
            split_seq(s@, sep).len() == out@.len() + split_from(s@, pos as int, sep).len(),
            forall|i: int| 0 <= i < out@.len() ==> out@[i]@ == split_seq(s@, sep)[i],
            forall|i: int|
                0 <= i < split_from(s@, pos as int, sep).len() ==> split_from(
                    s@,
                    pos as int,
                    sep,
                )[i] == split_seq(s@, sep)[out@.len() + i],
        invariant
            pos <= n,
            n == s@.len(),
        ensures
            out@.len() == split_seq(s@, sep).len(),
            forall|i: int| 0 <= i < out@.len() ==> out@[i]@ == split_seq(s@, sep)[i],
        decreases n - pos,
    {
        let k = find_char_exec(s, pos, sep);
        proof {
            lemma_find_char(s@, pos as int, sep);
        }
        let ghost tail = split_from(s@, pos as int, sep);
        let ghost old_len = out@.len();
        let piece = s.substring_char(pos, k);
        out.push(String::from_str(piece));
        proof {
            assert(split_from(s@, pos as int, sep)[0] == s@.subrange(pos as int, k as int));
        }
        if k >= n {
            proof {
                assert(tail =~= seq![s@.subrange(pos as int, k as int)]);
                assert(out@[old_len as int]@ == split_seq(s@, sep)[old_len as int]);
            }
            break;
        }
        proof {
            assert(tail =~= seq![s@.subrange(pos as int, k as int)] + split_from(
                s@,
                k + 1,
                sep,
            ));
            assert(forall|i: int|
                0 <= i < split_from(s@, k + 1, sep).len() ==> #[trigger] split_from(
                    s@,
                    k + 1,
                    sep,
                )[i] == split_from(s@, pos as int, sep)[i + 1]);
            assert(out@[old_len as int]@ == split_seq(s@, sep)[old_len as int]);
        }
        pos = k + 1;
    }
    out
}

/// Lowercase image of an ASCII letter; any other character is unchanged.
pub open spec fn lower_char(c: char) -> char {
    if is_upper_char(c) {
        (((c as u32) + 32) as char)
    } else {
        c
    }
}

/// The character sequence with ASCII uppercase letters lowered.
pub open spec fn lower_seq(s: Seq<char>) -> Seq<char> {
    Seq::new(s.len(), |i: int| lower_char(s[i]))
}

/// One-character string holding the lowercase image of an uppercase letter.
fn lower_char_frag(c: char) -> (r: &'static str)
    requires
        is_upper_char(c),
    ensures
        r@ =~= seq![lower_char(c)],
{
    proof {
        reveal_strlit("a");
        reveal_strlit("b");
        reveal_strlit("c");
        reveal_strlit("d");
        reveal_strlit("e");
        reveal_strlit("f");
        reveal_strlit("g");
        reveal_strlit("h");
        reveal_strlit("i");
        reveal_strlit("j");
        reveal_strlit("k");
        reveal_strlit("l");
        reveal_strlit("m");
        reveal_strlit("n");
        reveal_strlit("o");
        reveal_strlit("p");
        reveal_strlit("q");
        reveal_strlit("r");
        reveal_strlit("s");
        reveal_strlit("t");
        reveal_strlit("u");
        reveal_strlit("v");
        reveal_strlit("w");
        reveal_strlit("x");
        reveal_strlit("y");
        reveal_strlit("z");
    }
    if c == 'A' {
        "a"
    } else if c == 'B' {
        "b"
    } else if c == 'C' {
        "c"
    } else if c == 'D' {
        "d"
    } else if c == 'E' {
        "e"
    } else if c == 'F' {
        "f"
    } else if c == 'G' {
        "g"
    } else if c == 'H' {
        "h"
    } else if c == 'I' {
        "i"
    } else if c == 'J' {
        "j"
    } else if c == 'K' {
        "k"
    } else if c == 'L' {
        "l"
    } else if c == 'M' {
        "m"
    } else if c == 'N' {
        "n"
    } else if c == 'O' {
        "o"
    } else if c == 'P' {
        "p"
    } else if c == 'Q' {
        "q"
    } else if c == 'R' {
        "r"
    } else if c == 'S' {
        "s"
    } else if c == 'T' {
        "t"
    } else if c == 'U' {
        "u"
    } else if c == 'V' {
        "v"
    } else if c == 'W' {
        "w"
    } else if c == 'X' {
        "x"
    } else if c == 'Y' {
        "y"
    } else {
        "z"
    }
}

/// The string with ASCII uppercase letters lowered.
pub fn to_lowercase_ascii(s: &str) -> (r: String)
    ensures
        r@ =~= lower_seq(s@),
{
    let n = s.unicode_len();
    let mut out = String::new();
    let mut i: usize = 0;
    loop
        invariant
            i <= n,
            n == s@.len(),
            out@ =~= lower_seq(s@).subrange(0, i as int),
        ensures
            i == n,
            out@ =~= lower_seq(s@),
        decreases n - i,
    {
        if i >= n {
            proof {
                assert(lower_seq(s@).subrange(0, n as int) =~= lower_seq(s@));
            }
            break;
        }
        let c = s.get_char(i);
        let upper = 'A' <= c && c <= 'Z';
        if upper {
            out.append(lower_char_frag(c));
        } else {
            let frag = s.substring_char(i, i + 1);
            proof {
                assert(frag@ =~= seq![lower_char(s@[i as int])]);
            }
            out.append(frag);
        }
        proof {
            assert(out@ =~= lower_seq(s@).subrange(0, i + 1));
        }
        i = i + 1;
    }
    out
}

/// The first `i` entries of `parts` with duplicates removed, keeping
/// first occurrences in order.
pub open spec fn dedup_upto(parts: Seq<Seq<char>>, i: int) -> Seq<Seq<char>>
    decreases i,
{
    if i <= 0 {
        Seq::empty()
    } else {
        let prev = dedup_upto(parts, i - 1);
        if seq_has(prev, parts[i - 1]) {
            prev
        } else {
            prev.push(parts[i - 1])
        }
    }
}

/// Appending an entry does not change the dedup of an earlier prefix.
pub proof fn lemma_dedup_upto_push(parts: Seq<Seq<char>>, x: Seq<char>, i: int)
    requires
        0 <= i <= parts.len(),
    ensures
        dedup_upto(parts.push(x), i) == dedup_upto(parts, i),
    decreases i,
{
    if i > 0 {
        lemma_dedup_upto_push(parts, x, i - 1);
        assert(parts.push(x)[i - 1] == parts[i - 1]);
    }
}

/// Lexicographic order on character sequences, by scalar value.
pub open spec fn lex_lt(a: Seq<char>, b: Seq<char>) -> bool
    decreases a.len(),
{
    if b.len() == 0 {
        false
    } else if a.len() == 0 {
        true
    } else if a[0] != b[0] {
        (a[0] as u32) < (b[0] as u32)
    } else {
        lex_lt(a.drop_first(), b.drop_first())
    }
}

/// The order is a strict total order: irreflexive, transitive, and any
/// two distinct sequences are comparable.
pub proof fn lemma_lex_total(a: Seq<char>, b: Seq<char>)
    ensures
        a == b <==> !lex_lt(a, b) && !lex_lt(b, a),
    decreases a.len(),
{
    if a.len() > 0 && b.len() > 0 && a[0] == b[0] {
        lemma_lex_total(a.drop_first(), b.drop_first());
        if a.drop_first() == b.drop_first() {
            assert(forall|i: int| 1 <= i < a.len() ==> a[i] == a.drop_first()[i - 1]);
            assert(forall|i: int| 1 <= i < b.len() ==> b[i] == b.drop_first()[i - 1]);
            assert(a =~= b);
        }
        if a == b {
            assert(a.drop_first() == b.drop_first());
        }
    } else if a.len() > 0 && b.len() > 0 {
        if (a[0] as u32) == (b[0] as u32) {
            vstd::utf8::char_u32_cast(a[0], a[0] as u32);
            vstd::utf8::char_u32_cast(b[0], b[0] as u32);
        }
    } else if a.len() == 0 && b.len() == 0 {
        assert(a =~= b);
    }
}

pub proof fn lemma_lex_trans(a: Seq<char>, b: Seq<char>, c: Seq<char>)
    requires
        lex_lt(a, b),
        lex_lt(b, c),
    ensures
        lex_lt(a, c),
    decreases a.len(),
{
    if a.len() > 0 && b.len() > 0 && c.len() > 0 && a[0] == b[0] && b[0] == c[0] {
        lemma_lex_trans(a.drop_first(), b.drop_first(), c.drop_first());
    }
}

/// Whether `a` orders strictly before `b` (see [`lex_lt`]).
pub fn str_lt(a: &str, b: &str) -> (r: bool)
    ensures
        r == lex_lt(a@, b@),
{
    let n = a.unicode_len();
    let m = b.unicode_len();
    proof {
        assert(a@.subrange(0, n as int) =~= a@);
        assert(b@.subrange(0, m as int) =~= b@);
    }
    let mut i: usize = 0;
    loop
        invariant
            i <= n,
            i <= m,
            n == a@.len(),
            m == b@.len(),
            lex_lt(a@, b@) == lex_lt(
                a@.subrange(i as int, n as int),
                b@.subrange(i as int, m as int),
            ),
        ensures
            lex_lt(a@, b@) == lex_lt(
                a@.subrange(i as int, n as int),
                b@.subrange(i as int, m as int),
            ),
            i >= m || i >= n || a@[i as int] != b@[i as int],
        decreases n - i,
    {
        if i >= n || i >= m {
            break;
        }
        let ca = a.get_char(i);
        let cb = b.get_char(i);
        if ca != cb {
            break;
        }
        proof {
            let sa = a@.subrange(i as int, n as int);
            let sb = b@.subrange(i as int, m as int);
            assert(sa.drop_first() =~= a@.subrange(i + 1, n as int));
            assert(sb.drop_first() =~= b@.subrange(i + 1, m as int));
        }
        i = i + 1;
    }
    proof {
        assert(a@.subrange(i as int, n as int).len() == n - i);
        assert(b@.subrange(i as int, m as int).len() == m - i);
    }
    if i >= m {
        false
    } else if i >= n {
        true
    } else {
        let ca = a.get_char(i);
        let cb = b.get_char(i);
        proof {
            assert(a@.subrange(i as int, n as int)[0] == a@[i as int]);
            assert(b@.subrange(i as int, m as int)[0] == b@[i as int]);
        }
        (ca as u32) < (cb as u32)
    }
}

/// Membership of a character sequence in a list of sequences.
pub open spec fn seq_has(vs: Seq<Seq<char>>, x: Seq<char>) -> bool {
    exists|i: int| 0 <= i < vs.len() && vs[i] == x
}

/// Membership in a list extended at the end.
pub proof fn lemma_seq_has_push(s: Seq<Seq<char>>, d: Seq<char>)
    ensures
        forall|x: Seq<char>| #[trigger] seq_has(s.push(d), x) <==> (seq_has(s, x) || x == d),
{
    assert forall|x: Seq<char>| #[trigger] seq_has(s.push(d), x) implies (seq_has(s, x) || x
        == d) by {
        let q = choose|q: int| 0 <= q < s.push(d).len() && s.push(d)[q] == x;
        if q < s.len() {
            assert(s[q] == x);
        }
    }
    assert forall|x: Seq<char>| (seq_has(s, x) || x == d) implies #[trigger] seq_has(
        s.push(d),
        x,
    ) by {
        if seq_has(s, x) {
            let q = choose|q: int| 0 <= q < s.len() && s[q] == x;
            assert(s.push(d)[q] == x);
        } else {
            assert(s.push(d)[s.len() as int] == x);
        }
    }
}

/// Membership in a list with an element inserted.
pub proof fn lemma_seq_has_insert(s: Seq<Seq<char>>, j: int, d: Seq<char>)
    requires
        0 <= j <= s.len(),
    ensures
        forall|x: Seq<char>| #[trigger] seq_has(s.insert(j, d), x) <==> (seq_has(s, x) || x == d),
{
    s.insert_ensures(j, d);
    let t = s.insert(j, d);
    assert forall|x: Seq<char>| #[trigger] seq_has(t, x) implies (seq_has(s, x) || x == d) by {
        let q = choose|q: int| 0 <= q < t.len() && t[q] == x;
        if q < j {
            assert(s[q] == x);
        } else if q > j {
            assert(s[q - 1] == x);
        }
    }
    assert forall|x: Seq<char>| (seq_has(s, x) || x == d) implies #[trigger] seq_has(t, x) by {
        if seq_has(s, x) {
            let q = choose|q: int| 0 <= q < s.len() && s[q] == x;
            if q < j {
                assert(t[q] == x);
            } else {
                assert(t[q + 1] == x);
            }
        } else {
            assert(t[j] == x);
        }
    }
}

/// The views of a vector of strings.
pub open spec fn views_of(v: Seq<String>) -> Seq<Seq<char>> {
    Seq::new(v.len(), |i: int| v[i]@)
}

/// Whether `s` occurs in the string list `v`.
pub fn vec_contains_str(v: &Vec<String>, s: &str) -> (r: bool)
    ensures
        r == seq_has(views_of(v@), s@),
{
    let n = v.len();
    let mut i: usize = 0;
    let mut found = false;
    loop
        invariant
            i <= n,
            n == v@.len(),
            found ==> seq_has(views_of(v@), s@),
            !found ==> forall|j: int| 0 <= j < i ==> views_of(v@)[j] != s@,
        ensures
            found == seq_has(views_of(v@), s@),
        decreases n - i,
    {
        if i >= n {
            break;
        }
        if str_eq(v[i].as_str(), s) {
            found = true;
            proof {
                assert(views_of(v@)[i as int] == s@);
            }
            break;
        }
        i = i + 1;
    }
    found
}

/// Whether two strings hold the same characters.
pub fn str_eq(a: &str, b: &str) -> (r: bool)
    ensures
        r == (a@ == b@),
{
    let n = a.unicode_len();
    let m = b.unicode_len();
    if n != m {
        return false;
    }
    let r = match_at_exec(a, 0, b);
    proof {
        assert(a@.subrange(0, a@.len() as int) =~= a@);
    }
    r
}

} // verus!

//! Line-level recognition of Python definitions: `def` lines, `class`
//! lines, and decorator lines.  Recognition is purely structural, at line
//! granularity: optional leading whitespace, the keyword, an identifier,
//! and (for functions) an opening parenthesis.

use vstd::prelude::*;

use crate::text::{
    find_char, is_space_char, match_at, skip_word, skip_ws, trim_seq,
};
use crate::text::{
    find_char_exec, match_at_exec, skip_word_exec, skip_ws_exec, str_len, trim_exec,
};

verus! {

/// Parse of a function-definition line: indentation width and function
/// name, when the line has the shape `<ws> def <name> ( ...`.
pub open spec fn def_line_parse(s: Seq<char>) -> Option<(int, Seq<char>)> {
    let i = skip_ws(s, 0);
    let j = i + 3;
    if match_at(s, i, "def"@) && j < s.len() && is_space_char(s[j]) {
        let k = skip_ws(s, j);
        let m = skip_word(s, k);
        if m > k && skip_ws(s, m) < s.len() && s[skip_ws(s, m)] == '(' {
            Some((i, s.subrange(k, m)))
        } else {
            None
        }
    } else {
        None
    }
}

/// Parse of a class-definition line: indentation width and class name,
/// when the line has the shape `<ws> class <name> ...`.
pub open spec fn class_line_parse(s: Seq<char>) -> Option<(int, Seq<char>)> {
    let i = skip_ws(s, 0);
    let j = i + 5;
    if match_at(s, i, "class"@) && j < s.len() && is_space_char(s[j]) {
        let k = skip_ws(s, j);
        let m = skip_word(s, k);
        if m > k {
            Some((i, s.subrange(k, m)))
        } else {
            None
        }
    } else {
        None
    }
}

/// Text of a decorator line `<ws> @ <text>`: the text after the `@`, with
/// an inline comment removed and surrounding whitespace trimmed.
pub open spec fn decorator_line_parse(s: Seq<char>) -> Option<Seq<char>> {
    let i = skip_ws(s, 0);
    if i < s.len() && s[i] == '@' && i + 1 < s.len() {
        let raw = s.subrange(i + 1, s.len() as int);
        Some(trim_seq(raw.subrange(0, find_char(raw, 0, '#'))))
    } else {
        None
    }
}

/// A line whose first non-whitespace character is `@`.
pub open spec fn is_decorator_line(s: Seq<char>) -> bool {
    trim_seq(s).len() > 0 && trim_seq(s)[0] == '@'
}

/// A line holding only whitespace (or nothing).
pub open spec fn is_blank_line(s: Seq<char>) -> bool {
    trim_seq(s).len() == 0
}

/// A line that begins with horizontal whitespace.
pub open spec fn starts_indented(s: Seq<char>) -> bool {
    s.len() > 0 && is_space_char(s[0])
}

/// Executable counterpart of [`def_line_parse`].
pub fn parse_def_line(line: &str) -> (r: Option<(usize, String)>)
    ensures
        match r {
            Some(p) => def_line_parse(line@) == Some((p.0 as int, p.1@)),
            None => def_line_parse(line@) is None,
        },
{
    let n = str_len(line);
    let i = skip_ws_exec(line, 0);
    proof {
        reveal_strlit("def");
    }
    if !match_at_exec(line, i, "def") {
        return None;
    }
    let j = i + 3;
    if j >= n {
        return None;
    }
    let cj = line.get_char(j);
    if cj != ' ' && cj != '\t' {
        return None;
    }
    let k = skip_ws_exec(line, j);
    let m = skip_word_exec(line, k);
    if m == k {
        return None;
    }
    let p = skip_ws_exec(line, m);
    if p >= n {
        return None;
    }
    if line.get_char(p) != '(' {
        return None;
    }
    let name = line.substring_char(k, m);
    Some((i, String::from_str(name)))
}

/// Executable counterpart of [`class_line_parse`].
pub fn parse_class_line(line: &str) -> (r: Option<(usize, String)>)
    ensures
        match r {
            Some(p) => class_line_parse(line@) == Some((p.0 as int, p.1@)),
            None => class_line_parse(line@) is None,
        },
{
    let n = str_len(line);
    let i = skip_ws_exec(line, 0);
    proof {
        reveal_strlit("class");
    }
    if !match_at_exec(line, i, "class") {
        return None;
    }
    let j = i + 5;
    if j >= n {
        return None;
    }
    let cj = line.get_char(j);
    if cj != ' ' && cj != '\t' {
        return None;
    }
    let k = skip_ws_exec(line, j);
    let m = skip_word_exec(line, k);
    if m == k {
        return None;
    }
    let name = line.substring_char(k, m);
    Some((i, String::from_str(name)))
}

/// Executable counterpart of [`decorator_line_parse`].
pub fn parse_decorator_line(line: &str) -> (r: Option<String>)
    ensures
        match r {
            Some(t) => decorator_line_parse(line@) == Some(t@),
            None => decorator_line_parse(line@) is None,
        },
{
    let n = str_len(line);
    let i = skip_ws_exec(line, 0);
    if i >= n {
        return None;
    }
    if line.get_char(i) != '@' {
        return None;
    }
    if i + 1 >= n {
        return None;
    }
    let raw = line.substring_char(i + 1, n);
    let q = find_char_exec(raw, 0, '#');
    let cut = raw.substring_char(0, q);
    let t = trim_exec(cut);
    proof {
        let rawv = line@.subrange(i + 1, line@.len() as int);
        assert(raw@ == rawv);
        assert(cut@ =~= rawv.subrange(0, find_char(rawv, 0, '#')));
    }
    Some(String::from_str(t))
}

/// Executable counterpart of [`is_decorator_line`].
pub fn decorator_line_check(line: &str) -> (r: bool)
    ensures
        r == is_decorator_line(line@),
{
    let t = trim_exec(line);
    let n = str_len(t);
    if n == 0 {
        return false;
    }
    let c = t.get_char(0);
    c == '@'
}

/// Executable counterpart of [`is_blank_line`].
pub fn blank_line_check(line: &str) -> (r: bool)
    ensures
        r == is_blank_line(line@),
{
    let t = trim_exec(line);
    let n = str_len(t);
    n == 0
}

/// Executable counterpart of [`starts_indented`].
pub fn starts_indented_check(line: &str) -> (r: bool)
    ensures
        r == starts_indented(line@),
{
    let n = str_len(line);
    if n == 0 {
        return false;
    }
    let c = line.get_char(0);
    c == ' ' || c == '\t'
}

} // verus!

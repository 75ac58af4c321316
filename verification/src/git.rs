//! The pure part of changed-file selection: merging the staged,
//! unstaged, and untracked listings that version control reports into
//! one deduplicated list of source files under the project root.

use vstd::prelude::*;

use crate::paths::join_path;
use crate::paths::join_path_exec;
use crate::text::{ends_with_seq, lines_of, seq_has, views_of};
use crate::text::{ends_with_exec, split_lines, vec_contains_str};

verus! {

/// The accumulator extended by the first `i` reported lines: each line
/// naming a source file is joined to the root; with `dedup` set, paths
/// already collected are not repeated.
pub open spec fn add_changed(
    root: Seq<char>,
    lines: Seq<Seq<char>>,
    i: int,
    acc: Seq<Seq<char>>,
    dedup: bool,
) -> Seq<Seq<char>>
    decreases i,
{
    if i <= 0 {
        acc
    } else {
        let prev = add_changed(root, lines, i - 1, acc, dedup);
        let l = lines[i - 1];
        if ends_with_seq(l, ".py"@) && !(dedup && seq_has(prev, join_path(root, l))) {
            prev.push(join_path(root, l))
        } else {
            prev
        }
    }
}

/// The changed source files: every staged line (as reported), then the
/// unstaged and untracked lines not already present.
pub open spec fn changed_files_spec(
    root: Seq<char>,
    staged: Seq<char>,
    unstaged: Seq<char>,
    untracked: Seq<char>,
) -> Seq<Seq<char>> {
    let a1 = add_changed(root, lines_of(staged), lines_of(staged).len() as int, Seq::empty(), false);
    let a2 = add_changed(root, lines_of(unstaged), lines_of(unstaged).len() as int, a1, true);
    add_changed(root, lines_of(untracked), lines_of(untracked).len() as int, a2, true)
}

/// Append one listing's source files to the accumulator.
fn add_listing(root: &str, listing: &str, acc: &mut Vec<String>, dedup: bool)
    ensures
        views_of(final (acc)@) == add_changed(
            root@,
            lines_of(listing@),
            lines_of(listing@).len() as int,
            views_of(old(acc)@),
            dedup,
        ),
{
    let lines = split_lines(listing);
    let ghost lv = lines_of(listing@);
    let ghost acc0 = views_of(acc@);
    let n = lines.len();
    let mut i: usize = 0;
    while i < n
        invariant
            i <= n,
            n == lv.len(),
            lines@.len() == lv.len(),
            forall|q: int| 0 <= q < lv.len() ==> lines@[q]@ == lv[q],
            views_of(acc@) == add_changed(root@, lv, i as int, acc0, dedup),
        decreases n - i,
    {
        proof {
            reveal_strlit(".py");
        }
        let line = lines[i].as_str();
        if ends_with_exec(line, ".py") {
            let path = join_path_exec(root, line);
            if !(dedup && vec_contains_str(acc, path.as_str())) {
                acc.push(path);
                proof {
                    assert(views_of(acc@) =~= add_changed(root@, lv, i + 1, acc0, dedup));
                }
            } else {
                proof {
                    assert(views_of(acc@) =~= add_changed(root@, lv, i + 1, acc0, dedup));
                }
            }
        } else {
            proof {
                assert(views_of(acc@) =~= add_changed(root@, lv, i + 1, acc0, dedup));
            }
        }
        i = i + 1;
    }
}

/// Merge the three listings version control reports into the list of
/// changed source files (see [`changed_files_spec`]).
pub fn collect_changed_files(
    project_root: &str,
    staged: &str,
    unstaged: &str,
    untracked: &str,
) -> (r: Vec<String>)
    ensures
        views_of(r@) == changed_files_spec(project_root@, staged@, unstaged@, untracked@),
{
    let mut changed_files: Vec<String> = Vec::new();
    proof {
        assert(views_of(changed_files@) =~= Seq::<Seq<char>>::empty());
    }
    add_listing(project_root, staged, &mut changed_files, false);
    add_listing(project_root, unstaged, &mut changed_files, true);
    add_listing(project_root, untracked, &mut changed_files, true);
    changed_files
}

} // verus!

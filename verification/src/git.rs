//! Reading the main worktree out of `git worktree list --porcelain`.

use std::path::Path;
use vstd::prelude::*;
use crate::text::{chars_of, split_at_char, string_of, sub_chars};

verus! {

/// A line without the `\r` of a `\r\n` line ending.
pub open spec fn without_cr(l: Seq<char>) -> Seq<char> {
    if l.len() > 0 && l.last() == '\r' {
        l.drop_last()
    } else {
        l
    }
}

/// The lines of `s`, as `str::lines` documents them: split at `\n` or `\r\n`, without the
/// line endings; a final line ending does not start another line, and a final line with no
/// `\n` after it is kept as it is (a `\r` there is not a line ending).
pub open spec fn text_lines(s: Seq<char>) -> Seq<Seq<char>> {
    if s.len() == 0 {
        Seq::<Seq<char>>::empty()
    } else if s.last() == '\n' {
        split_at_char(s, '\n').drop_last().map_values(|l: Seq<char>| without_cr(l))
    } else {
        let pieces = split_at_char(s, '\n');
        pieces.drop_last().map_values(|l: Seq<char>| without_cr(l)).push(pieces.last())
    }
}

/// `l` without a final `\r`.
fn strip_cr(l: Vec<char>) -> (res: Vec<char>)
    ensures
        res@ == without_cr(l@),
{
    let mut l = l;
    if l.len() > 0 && l[l.len() - 1] == '\r' {
        l.pop();
    }
    l
}

/// The lines of `s` (see [`text_lines`]).
fn lines_of(s: &str) -> (res: Vec<String>)
    ensures
        res@.map_values(|l: String| l@) == text_lines(s@),
{
    let cs = chars_of(s);
    let mut done: Vec<String> = Vec::new();
    let mut current: Vec<char> = Vec::new();
    let mut i: usize = 0;
    proof {
        assert(cs@.take(0) =~= Seq::<char>::empty());
        assert(split_at_char(Seq::<char>::empty(), '\n').drop_last() =~= Seq::<Seq<char>>::empty());
        assert(done@.map_values(|l: String| l@) =~= Seq::<Seq<char>>::empty());
    }
    while i < cs.len()
        invariant
            i <= cs@.len(),
            cs@ == s@,
            split_at_char(cs@.take(i as int), '\n').len() >= 1,
            current@ == split_at_char(cs@.take(i as int), '\n').last(),
            done@.map_values(|l: String| l@) == split_at_char(cs@.take(i as int), '\n').drop_last().map_values(
                |l: Seq<char>| without_cr(l),
            ),
        decreases cs.len() - i,
    {
        let ghost pre = cs@.take(i as int);
        let ghost next = cs@.take(i + 1);
        let ghost before = done@.map_values(|l: String| l@);
        assert(next.drop_last() =~= pre);
        assert(next.last() == cs@[i as int]);
        let c = cs[i];
        if c == '\n' {
            let line = strip_cr(current);
            let text = string_of(line.as_slice());
            done.push(text);
            current = Vec::new();
            proof {
                let p = split_at_char(pre, '\n');
                assert(split_at_char(next, '\n') == p.push(Seq::<char>::empty()));
                assert(p.push(Seq::<char>::empty()).drop_last() =~= p);
                assert(p =~= p.drop_last().push(p.last()));
                assert(done@.map_values(|l: String| l@) =~= before.push(text@));
                assert(p.map_values(|l: Seq<char>| without_cr(l)) =~= p.drop_last().map_values(
                    |l: Seq<char>| without_cr(l),
                ).push(without_cr(p.last())));
                assert(current@ =~= Seq::<char>::empty());
            }
        } else {
            current.push(c);
            proof {
                let p = split_at_char(pre, '\n');
                let q = p.update(p.len() - 1, p.last().push(c));
                assert(split_at_char(next, '\n') == q);
                assert(q.drop_last() =~= p.drop_last());
            }
        }
        i = i + 1;
    }
    assert(cs@.take(cs.len() as int) =~= cs@);
    let ghost p = split_at_char(cs@, '\n');
    if cs.len() > 0 && cs[cs.len() - 1] != '\n' {
        let text = string_of(current.as_slice());
        let ghost before = done@.map_values(|l: String| l@);
        done.push(text);
        proof {
            assert(done@.map_values(|l: String| l@) =~= before.push(text@));
        }
    } else if cs.len() == 0 {
        assert(done@.map_values(|l: String| l@) =~= Seq::<Seq<char>>::empty());
    }
    done
}

/// Whether `Path` considers the two paths equal (it compares their components).
pub uninterp spec fn paths_equal(a: Seq<char>, b: Seq<char>) -> bool;

/// `PartialEq` for `std::path::Path`, on two paths given as strings. The contract only names
/// the result: component-wise comparison is left to the standard library.
#[verifier::external_body]
fn same_path(a: &str, b: &str) -> (res: bool)
    ensures
        res == paths_equal(a@, b@),
{
    Path::new(a) == Path::new(b)
}

/// The path on a `worktree <path>` line.
pub open spec fn worktree_path(line: Seq<char>) -> Option<Seq<char>> {
    let prefix = "worktree "@;
    if line.len() >= prefix.len() && line.take(prefix.len() as int) == prefix {
        Some(line.skip(prefix.len() as int))
    } else {
        None
    }
}

/// The path of the first `worktree` line among `lines`.
pub open spec fn first_worktree(lines: Seq<Seq<char>>) -> Option<Seq<char>>
    decreases lines.len(),
{
    if lines.len() == 0 {
        None
    } else {
        match worktree_path(lines[0]) {
            Some(p) => Some(p),
            None => first_worktree(lines.drop_first()),
        }
    }
}

/// The main worktree named by porcelain output, unless it is the current directory.
pub open spec fn spec_main_worktree(stdout: Seq<char>, current_dir: Seq<char>) -> Option<Seq<char>> {
    match first_worktree(text_lines(stdout)) {
        Some(p) => if paths_equal(p, current_dir) {
            None
        } else {
            Some(p)
        },
        None => None,
    }
}

/// The main worktree root from the output of `git worktree list --porcelain`: the path on the
/// first `worktree` line, or `None` when there is no such line or when that path is the
/// current directory.
pub fn main_worktree_from_porcelain(stdout: &str, current_dir: &str) -> (res: Option<String>)
    ensures
        match res {
            Some(p) => spec_main_worktree(stdout@, current_dir@) == Some(p@),
            None => spec_main_worktree(stdout@, current_dir@) is None,
        },
{
    let lines = lines_of(stdout);
    let ghost ls = lines@.map_values(|l: String| l@);
    let prefix = chars_of("worktree ");
    let mut i: usize = 0;
    assert(ls.skip(0) =~= ls);
    while i < lines.len()
        invariant
            i <= lines@.len(),
            ls == lines@.map_values(|l: String| l@),
            ls == text_lines(stdout@),
            prefix@ == "worktree "@,
            first_worktree(ls) == first_worktree(ls.skip(i as int)),
        decreases lines.len() - i,
    {
        let cs = chars_of(lines[i].as_str());
        let ghost rest = ls.skip(i as int);
        assert(rest[0] == cs@);
        assert(rest.drop_first() =~= ls.skip(i + 1));
        let mut matches = cs.len() >= prefix.len();
        let mut j: usize = 0;
        while matches && j < prefix.len()
            invariant
                j <= prefix@.len(),
                matches ==> cs@.len() >= prefix@.len(),
                matches ==> forall|k: int| 0 <= k < j ==> cs@[k] == prefix@[k],
                !matches ==> (cs@.len() < prefix@.len() || exists|k: int|
                    0 <= k < prefix@.len() && k < cs@.len() && #[trigger] cs@[k] != prefix@[k]),
            decreases prefix.len() - j,
        {
            if cs[j] != prefix[j] {
                matches = false;
            }
            j = j + 1;
        }
        if matches {
            assert(cs@.take(prefix@.len() as int) =~= prefix@);
            let path_chars = sub_chars(&cs, prefix.len(), cs.len());
            assert(path_chars@ =~= cs@.skip(prefix@.len() as int));
            let path = string_of(path_chars.as_slice());
            if same_path(path.as_str(), current_dir) {
                return None;
            }
            return Some(path);
        }
        assert(worktree_path(cs@) is None) by {
            if cs@.len() >= prefix@.len() && cs@.take(prefix@.len() as int) == prefix@ {
                let k = choose|k: int|
                    0 <= k < prefix@.len() && k < cs@.len() && #[trigger] cs@[k] != prefix@[k];
                assert(cs@.take(prefix@.len() as int)[k] == cs@[k]);
            }
        }
        i = i + 1;
    }
    assert(ls.skip(lines.len() as int) =~= Seq::<Seq<char>>::empty());
    None
}

/// Whether `res` is what the porcelain output `stdout` names as main worktree of `current_dir`.
pub open spec fn names_main_worktree(res: Option<String>, stdout: Seq<char>, current_dir: Seq<char>) -> bool {
    match res {
        Some(p) => spec_main_worktree(stdout, current_dir) == Some(p@),
        None => spec_main_worktree(stdout, current_dir) is None,
    }
}

/// Detect the root of the main worktree when `current_dir` is a linked Git worktree.
///
/// `git_entry_is_dir` reports the `.git` entry of a directory: `None` when there is none,
/// `Some(true)` when it is a directory (an ordinary repository), `Some(false)` when it is a file
/// (a linked worktree). Only in the last case is `list_worktrees` asked for the output of
/// `git worktree list --porcelain` in `current_dir`; its error is passed through, and its output
/// is read by `main_worktree_from_porcelain`.
pub fn main_worktree_root<G, FE, FW>(
    git_entry_is_dir: FE,
    list_worktrees: FW,
    current_dir: &str,
) -> (res: Result<Option<String>, G>) where
    FE: Fn(&str) -> Option<bool>,
    FW: Fn(&str) -> Result<String, G>,

    requires
        git_entry_is_dir.requires((current_dir,)),
        list_worktrees.requires((current_dir,)),
    ensures
        exists|entry: Option<bool>|
            #![trigger git_entry_is_dir.ensures((current_dir,), entry)]
            git_entry_is_dir.ensures((current_dir,), entry) && match entry {
                Some(false) => exists|listed: Result<String, G>|
                    #![trigger list_worktrees.ensures((current_dir,), listed)]
                    list_worktrees.ensures((current_dir,), listed) && match listed {
                        Err(g) => res == Err::<Option<String>, G>(g),
                        Ok(out) => res is Ok && names_main_worktree(
                            res->Ok_0,
                            out@,
                            current_dir@,
                        ),
                    },
                _ => res == Ok::<Option<String>, G>(None),
            },
{
    let entry = git_entry_is_dir(current_dir);
    let ghost e = entry;
    assert(git_entry_is_dir.ensures((current_dir,), e));
    match entry {
        Some(false) => {},
        _ => {
            return Ok(None);
        },
    }
    let listed = list_worktrees(current_dir);
    let ghost l = listed;
    assert(list_worktrees.ensures((current_dir,), l));
    match listed {
        Err(g) => Err(g),
        Ok(out) => Ok(main_worktree_from_porcelain(out.as_str(), current_dir)),
    }
}

} // verus!

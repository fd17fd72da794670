//! Lexical path handling: tilde expansion and normalization of absolute paths.
//!
//! All functions here are purely textual; none of them looks at the filesystem.

use vstd::prelude::*;
use crate::text::{append_chars, char_views, chars_of, split_at_char, string_of};

verus! {

/// `s` begins with the character `c`.
pub open spec fn begins_with(s: Seq<char>, c: char) -> bool {
    s.len() > 0 && s[0] == c
}

/// `s` begins with `~/`.
pub open spec fn begins_with_tilde_slash(s: Seq<char>) -> bool {
    s.len() >= 2 && s[0] == '~' && s[1] == '/'
}

/// The `~user` form: a leading `~` that is neither a bare `~` nor followed by `/`.
pub open spec fn spec_has_tilde_user_prefix(p: Seq<char>) -> bool {
    begins_with(p, '~') && p != seq!['~'] && !begins_with_tilde_slash(p)
}

/// A non-absolute path that looks like a filesystem path rather than a Docker volume name.
pub open spec fn spec_is_relative_filesystem_path(p: Seq<char>) -> bool {
    begins_with(p, '.') || p.contains('/')
}

/// `s` with every trailing `/` removed.
pub open spec fn trim_trailing_slashes(s: Seq<char>) -> Seq<char>
    decreases s.len(),
{
    if s.len() > 0 && s.last() == '/' {
        trim_trailing_slashes(s.drop_last())
    } else {
        s
    }
}

/// Tilde expansion: `~` becomes the home directory (without trailing slashes), `~/rest` becomes
/// `home/rest`, and every other path is left as it is.
pub open spec fn spec_expand_tilde(p: Seq<char>, home: Seq<char>) -> Seq<char> {
    if p == seq!['~'] {
        trim_trailing_slashes(home)
    } else if begins_with_tilde_slash(p) {
        trim_trailing_slashes(home) + seq!['/'] + p.skip(2)
    } else {
        p
    }
}

/// One step of lexical normalization: empty and `.` pieces vanish, `..` drops the previous
/// component (or nothing at the root), anything else is kept.
pub open spec fn step_component(stack: Seq<Seq<char>>, piece: Seq<char>) -> Seq<Seq<char>> {
    if piece.len() == 0 || piece == seq!['.'] {
        stack
    } else if piece == seq!['.', '.'] {
        if stack.len() > 0 {
            stack.drop_last()
        } else {
            stack
        }
    } else {
        stack.push(piece)
    }
}

/// The components left after normalizing the pieces in order.
pub open spec fn normalized_components(pieces: Seq<Seq<char>>) -> Seq<Seq<char>>
    decreases pieces.len(),
{
    if pieces.len() == 0 {
        Seq::empty()
    } else {
        step_component(normalized_components(pieces.drop_last()), pieces.last())
    }
}

/// `/c1/c2/.../cn` for the components `c1 .. cn`.
pub open spec fn slash_join(comps: Seq<Seq<char>>) -> Seq<char>
    decreases comps.len(),
{
    if comps.len() == 0 {
        Seq::empty()
    } else {
        slash_join(comps.drop_last()) + seq!['/'] + comps.last()
    }
}

/// The absolute path rendered from normalized components; the root when there are none.
pub open spec fn render_components(comps: Seq<Seq<char>>) -> Seq<char> {
    if comps.len() == 0 {
        seq!['/']
    } else {
        slash_join(comps)
    }
}

/// Lexical normalization of an absolute path.
pub open spec fn spec_normalize_absolute_path(p: Seq<char>) -> Seq<char> {
    render_components(normalized_components(split_at_char(p, '/')))
}

/// `base/path`, normalized.
pub open spec fn spec_resolve_relative_path(p: Seq<char>, base: Seq<char>) -> Seq<char> {
    spec_normalize_absolute_path(base + seq!['/'] + p)
}

/// Tilde expansion followed by resolution against `cwd` (for relative results) and
/// normalization.
pub open spec fn spec_expand_and_resolve_path(p: Seq<char>, home: Seq<char>, cwd: Seq<char>) -> Seq<char> {
    let expanded = spec_expand_tilde(p, home);
    if begins_with(expanded, '/') {
        spec_normalize_absolute_path(expanded)
    } else {
        spec_resolve_relative_path(expanded, cwd)
    }
}

/// Whether a path uses the unsupported `~user` syntax.
///
/// True when the path starts with `~` followed by something other than `/` (e.g.
/// `~alice/data`). A bare `~` and `~/...` are handled by `expand_tilde` and do not match.
pub fn has_tilde_user_prefix(path: &str) -> (res: bool)
    ensures
        res == spec_has_tilde_user_prefix(path@),
{
    let p = chars_of(path);
    if p.len() == 0 || p[0] != '~' {
        return false;
    }
    if p.len() == 1 {
        assert(path@ =~= seq!['~']);
        return false;
    }
    assert(path@ != seq!['~']) by {
        assert(path@.len() != seq!['~'].len());
    }
    p[1] != '/'
}

/// Whether a non-absolute path looks like a filesystem path rather than a Docker volume name.
///
/// Filesystem-like paths start with `.` (e.g. `./data`, `../parent`) or contain `/` (e.g.
/// `data/subdir`); plain names such as `my_volume` are Docker volume names.
pub fn is_relative_filesystem_path(path: &str) -> (res: bool)
    ensures
        res == spec_is_relative_filesystem_path(path@),
{
    let p = chars_of(path);
    if p.len() > 0 && p[0] == '.' {
        return true;
    }
    let mut i: usize = 0;
    while i < p.len()
        invariant
            i <= p.len(),
            p@ == path@,
            forall|j: int| 0 <= j < i ==> p@[j] != '/',
        decreases p.len() - i,
    {
        if p[i] == '/' {
            return true;
        }
        i = i + 1;
    }
    false
}

/// The characters of `s` without trailing `/`.
fn trimmed_home(s: &str) -> (res: Vec<char>)
    ensures
        res@ == trim_trailing_slashes(s@),
{
    let mut cs = chars_of(s);
    while cs.len() > 0 && cs[cs.len() - 1] == '/'
        invariant
            trim_trailing_slashes(cs@) == trim_trailing_slashes(s@),
        decreases cs.len(),
    {
        cs.pop();
    }
    cs
}

/// Replace a leading `~` in `path` with `home_dir`.
///
/// Only `~` alone or `~/...` is expanded; `~user/...` and embedded tildes are left untouched.
/// Trailing slashes on `home_dir` are dropped so that no double slash appears.
pub fn expand_tilde(path: &str, home_dir: &str) -> (res: String)
    ensures
        res@ == spec_expand_tilde(path@, home_dir@),
{
    let p = chars_of(path);
    if p.len() == 1 && p[0] == '~' {
        assert(path@ =~= seq!['~']);
        let home = trimmed_home(home_dir);
        return string_of(home.as_slice());
    }
    if p.len() >= 2 && p[0] == '~' && p[1] == '/' {
        assert(path@ != seq!['~']) by {
            assert(path@.len() != seq!['~'].len());
        }
        let mut out = trimmed_home(home_dir);
        out.push('/');
        let mut i: usize = 2;
        while i < p.len()
            invariant
                2 <= i <= p.len(),
                p@ == path@,
                out@ == trim_trailing_slashes(home_dir@) + seq!['/'] + p@.subrange(2, i as int),
            decreases p.len() - i,
        {
            out.push(p[i]);
            assert(p@.subrange(2, i + 1) == p@.subrange(2, i as int).push(p@[i as int]));
            i = i + 1;
        }
        assert(p@.subrange(2, p.len() as int) == p@.skip(2));
        return string_of(out.as_slice());
    }
    assert(path@ != seq!['~']) by {
        if path@.len() == 1 {
            assert(path@[0] != '~');
            assert(seq!['~'][0] == '~');
        } else {
            assert(path@.len() != seq!['~'].len());
        }
    }
    string_of(p.as_slice())
}

/// Splitting at `/` always yields at least one piece.
proof fn lemma_split_nonempty(p: Seq<char>)
    ensures
        split_at_char(p, '/').len() >= 1,
    decreases p.len(),
{
    if p.len() > 0 {
        lemma_split_nonempty(p.drop_last());
    }
}

/// Apply one normalization step to the component stack.
fn step_stack(stack: &mut Vec<Vec<char>>, piece: Vec<char>)
    ensures
        char_views(final(stack)@) == step_component(char_views(old(stack)@), piece@),
{
    let ghost before = char_views(stack@);
    if piece.len() == 0 || (piece.len() == 1 && piece[0] == '.') {
        if piece.len() == 1 {
            assert(piece@ =~= seq!['.']);
        }
        return;
    }
    assert(piece@ != seq!['.']) by {
        if piece@.len() == 1 {
            assert(piece@[0] != seq!['.'][0]);
        }
    }
    if piece.len() == 2 && piece[0] == '.' && piece[1] == '.' {
        assert(piece@ =~= seq!['.', '.']);
        if stack.len() > 0 {
            stack.pop();
            assert(char_views(stack@) =~= before.drop_last());
        }
        return;
    }
    assert(piece@ != seq!['.', '.']) by {
        if piece@.len() == 2 {
            assert(piece@[0] != '.' || piece@[1] != '.');
        }
    }
    stack.push(piece);
    assert(char_views(stack@) =~= before.push(piece@));
}

/// Render normalized components as an absolute path.
fn render(stack: &Vec<Vec<char>>) -> (res: Vec<char>)
    ensures
        res@ == render_components(char_views(stack@)),
{
    let mut out: Vec<char> = Vec::new();
    if stack.len() == 0 {
        out.push('/');
        assert(out@ =~= seq!['/']);
        return out;
    }
    let mut j: usize = 0;
    while j < stack.len()
        invariant
            j <= stack.len(),
            out@ == slash_join(char_views(stack@).take(j as int)),
        decreases stack.len() - j,
    {
        let ghost prev = out@;
        out.push('/');
        append_chars(&mut out, stack[j].as_slice());
        assert(char_views(stack@).take(j + 1).drop_last() =~= char_views(stack@).take(j as int));
        assert(out@ =~= prev + seq!['/'] + stack@[j as int]@);
        j = j + 1;
    }
    assert(char_views(stack@).take(stack.len() as int) =~= char_views(stack@));
    out
}

/// Normalize the absolute path held in `p`.
fn normalize_chars(p: &Vec<char>) -> (res: Vec<char>)
    ensures
        res@ == spec_normalize_absolute_path(p@),
{
    let mut stack: Vec<Vec<char>> = Vec::new();
    let mut cur: Vec<char> = Vec::new();
    let mut i: usize = 0;
    proof {
        assert(p@.take(0) =~= Seq::<char>::empty());
        assert(char_views(stack@) =~= Seq::<Seq<char>>::empty());
    }
    while i < p.len()
        invariant
            i <= p.len(),
            split_at_char(p@.take(i as int), '/').len() >= 1,
            cur@ == split_at_char(p@.take(i as int), '/').last(),
            char_views(stack@) == normalized_components(split_at_char(p@.take(i as int), '/').drop_last()),
        decreases p.len() - i,
    {
        let ghost pcs = split_at_char(p@.take(i as int), '/');
        assert(p@.take(i + 1).drop_last() =~= p@.take(i as int));
        assert(p@.take(i + 1).last() == p@[i as int]);
        if p[i] == '/' {
            let piece = cur;
            cur = Vec::new();
            step_stack(&mut stack, piece);
            assert(split_at_char(p@.take(i + 1), '/') == pcs.push(Seq::<char>::empty()));
            assert(pcs.push(Seq::<char>::empty()).drop_last() =~= pcs);
            assert(cur@ =~= Seq::<char>::empty());
        } else {
            cur.push(p[i]);
            let ghost next = pcs.update(pcs.len() - 1, pcs.last().push(p@[i as int]));
            assert(split_at_char(p@.take(i + 1), '/') == next);
            assert(next.drop_last() =~= pcs.drop_last());
        }
        i = i + 1;
    }
    assert(p@.take(p.len() as int) =~= p@);
    let ghost pcs = split_at_char(p@, '/');
    step_stack(&mut stack, cur);
    assert(pcs =~= pcs.drop_last().push(pcs.last()));
    render(&stack)
}

/// Normalize an absolute path by resolving `.`, `..` and repeated slashes lexically.
///
/// `..` above the root is silently discarded; the filesystem is never consulted.
pub fn normalize_absolute_path(path: &str) -> (res: String)
    ensures
        res@ == spec_normalize_absolute_path(path@),
{
    let p = chars_of(path);
    let out = normalize_chars(&p);
    string_of(out.as_slice())
}

/// Resolve a relative path against a base directory, producing a normalized absolute path.
///
/// The path is joined to `base_dir` with a `/` and the result is normalized lexically.
pub fn resolve_relative_path(path: &str, base_dir: &str) -> (res: String)
    ensures
        res@ == spec_resolve_relative_path(path@, base_dir@),
{
    let mut joined = chars_of(base_dir);
    joined.push('/');
    let rest = chars_of(path);
    append_chars(&mut joined, rest.as_slice());
    assert(joined@ =~= base_dir@ + seq!['/'] + path@);
    let out = normalize_chars(&joined);
    string_of(out.as_slice())
}

/// Expand a leading tilde, then resolve any remaining relative path against `cwd`.
///
/// A result that is already absolute is only normalized; every other result is joined to `cwd`
/// and normalized. The `~user` form is not expanded and therefore ends up relative to `cwd`.
pub fn expand_and_resolve_path(path: &str, home_dir: &str, cwd: &str) -> (res: String)
    ensures
        res@ == spec_expand_and_resolve_path(path@, home_dir@, cwd@),
{
    let expanded = expand_tilde(path, home_dir);
    let e = chars_of(expanded.as_str());
    if e.len() > 0 && e[0] == '/' {
        let out = normalize_chars(&e);
        string_of(out.as_slice())
    } else {
        resolve_relative_path(expanded.as_str(), cwd)
    }
}

/// A component that survives normalization: non-empty, neither `.` nor `..`, and free of `/`.
pub open spec fn is_proper_component(c: Seq<char>) -> bool {
    c.len() > 0 && c != seq!['.'] && c != seq!['.', '.'] && !c.contains('/')
}

/// Every component of `cs` is proper.
pub open spec fn all_proper(cs: Seq<Seq<char>>) -> bool {
    forall|i: int| 0 <= i < cs.len() ==> is_proper_component(#[trigger] cs[i])
}

proof fn lemma_split_pieces_slash_free(p: Seq<char>)
    ensures
        forall|i: int| 0 <= i < split_at_char(p, '/').len() ==> !(#[trigger] split_at_char(p, '/')[i]).contains('/'),
    decreases p.len(),
{
    lemma_split_nonempty(p);
    if p.len() > 0 {
        lemma_split_pieces_slash_free(p.drop_last());
        lemma_split_nonempty(p.drop_last());
        let pieces = split_at_char(p.drop_last(), '/');
        if p.last() != '/' {
            let last = pieces.last().push(p.last());
            assert forall|i: int| 0 <= i < split_at_char(p, '/').len() implies !(#[trigger] split_at_char(p, '/')[i]).contains('/') by {
                if i == pieces.len() - 1 {
                    assert(split_at_char(p, '/')[i] == last);
                    if last.contains('/') {
                        let j = choose|j: int| 0 <= j < last.len() && last[j] == '/';
                        if j < last.len() - 1 {
                            assert(pieces.last()[j] == '/');
                            assert(pieces.last().contains('/'));
                        }
                    }
                } else {
                    assert(split_at_char(p, '/')[i] == pieces[i]);
                }
            }
        } else {
            assert forall|i: int| 0 <= i < split_at_char(p, '/').len() implies !(#[trigger] split_at_char(p, '/')[i]).contains('/') by {
                if i < pieces.len() {
                    assert(split_at_char(p, '/')[i] == pieces[i]);
                } else {
                    assert(split_at_char(p, '/')[i] == Seq::<char>::empty());
                }
            }
        }
    }
}

proof fn lemma_normalized_proper(pieces: Seq<Seq<char>>)
    requires
        forall|i: int| 0 <= i < pieces.len() ==> !(#[trigger] pieces[i]).contains('/'),
    ensures
        all_proper(normalized_components(pieces)),
    decreases pieces.len(),
{
    if pieces.len() > 0 {
        let init = pieces.drop_last();
        assert forall|i: int| 0 <= i < init.len() implies !(#[trigger] init[i]).contains('/') by {
            assert(init[i] == pieces[i]);
        }
        lemma_normalized_proper(init);
        let st = normalized_components(init);
        let last = pieces.last();
        assert(!pieces[pieces.len() - 1].contains('/'));
        let res = step_component(st, last);
        assert forall|i: int| 0 <= i < res.len() implies is_proper_component(#[trigger] res[i]) by {
            if i < st.len() {
                assert(res[i] == st[i]);
            }
        }
    }
}

proof fn lemma_split_after_slash(x: Seq<char>, l: Seq<char>)
    requires
        !l.contains('/'),
    ensures
        split_at_char(x + seq!['/'] + l, '/') == split_at_char(x, '/').push(l),
    decreases l.len(),
{
    if l.len() == 0 {
        assert(x + seq!['/'] + l =~= x.push('/'));
        assert(x.push('/').drop_last() =~= x);
        assert(x.push('/').last() == '/');
        assert(l =~= Seq::<char>::empty());
    } else {
        let init = l.drop_last();
        assert(!init.contains('/')) by {
            if init.contains('/') {
                let j = choose|j: int| 0 <= j < init.len() && init[j] == '/';
                assert(l[j] == '/');
            }
        }
        lemma_split_after_slash(x, init);
        assert((x + seq!['/'] + l).drop_last() =~= x + seq!['/'] + init);
        assert(l.last() != '/') by {
            assert(l[l.len() - 1] == l.last());
        }
        lemma_split_nonempty(x);
        let s0 = split_at_char(x + seq!['/'] + init, '/');
        assert(s0 == split_at_char(x, '/').push(init));
        assert((x + seq!['/'] + l).last() == l.last());
        assert(split_at_char(x + seq!['/'] + l, '/') == s0.update(s0.len() - 1, s0.last().push(l.last())));
        assert(init.push(l.last()) =~= l);
        assert(s0.update(s0.len() - 1, s0.last().push(l.last())) =~= split_at_char(x, '/').push(l));
    }
}

proof fn lemma_split_of_join(comps: Seq<Seq<char>>)
    requires
        all_proper(comps),
    ensures
        split_at_char(slash_join(comps), '/') == seq![Seq::<char>::empty()] + comps,
    decreases comps.len(),
{
    if comps.len() == 0 {
        assert(slash_join(comps) == Seq::<char>::empty());
        assert(seq![Seq::<char>::empty()] + comps =~= seq![Seq::<char>::empty()]);
    } else {
        let init = comps.drop_last();
        assert(all_proper(init)) by {
            assert forall|i: int| 0 <= i < init.len() implies is_proper_component(#[trigger] init[i]) by {
                assert(init[i] == comps[i]);
            }
        }
        lemma_split_of_join(init);
        assert(is_proper_component(comps[comps.len() - 1]));
        lemma_split_after_slash(slash_join(init), comps.last());
        assert((seq![Seq::<char>::empty()] + init).push(comps.last()) =~= seq![Seq::<char>::empty()]
            + comps);
    }
}

proof fn lemma_normalize_proper(comps: Seq<Seq<char>>)
    requires
        all_proper(comps),
    ensures
        normalized_components(seq![Seq::<char>::empty()] + comps) == comps,
    decreases comps.len(),
{
    let pieces = seq![Seq::<char>::empty()] + comps;
    if comps.len() == 0 {
        assert(pieces =~= seq![Seq::<char>::empty()]);
        assert(pieces.drop_last() =~= Seq::<Seq<char>>::empty());
        assert(pieces.last() == Seq::<char>::empty());
        assert(normalized_components(pieces.drop_last()) == Seq::<Seq<char>>::empty());
        assert(normalized_components(pieces) == step_component(Seq::<Seq<char>>::empty(), Seq::<char>::empty()));
        assert(normalized_components(pieces) =~= comps);
    } else {
        let init = comps.drop_last();
        assert(all_proper(init)) by {
            assert forall|i: int| 0 <= i < init.len() implies is_proper_component(#[trigger] init[i]) by {
                assert(init[i] == comps[i]);
            }
        }
        lemma_normalize_proper(init);
        assert(pieces.drop_last() =~= seq![Seq::<char>::empty()] + init);
        assert(pieces.last() == comps.last());
        assert(is_proper_component(comps[comps.len() - 1]));
        assert(init.push(comps.last()) =~= comps);
    }
}

proof fn lemma_slash_join_begins_with_slash(comps: Seq<Seq<char>>)
    requires
        comps.len() > 0,
    ensures
        begins_with(slash_join(comps), '/'),
    decreases comps.len(),
{
    if comps.len() > 1 {
        lemma_slash_join_begins_with_slash(comps.drop_last());
    } else {
        assert(slash_join(comps.drop_last()) == Seq::<char>::empty());
        assert((Seq::<char>::empty() + seq!['/'] + comps.last())[0] == '/');
    }
}

/// A normalized path is absolute, and normalizing it again changes nothing: it holds no empty,
/// `.` or `..` component.
pub proof fn law_normalize_is_idempotent(p: Seq<char>)
    ensures
        begins_with(spec_normalize_absolute_path(p), '/'),
        spec_normalize_absolute_path(spec_normalize_absolute_path(p)) == spec_normalize_absolute_path(p),
{
    let comps = normalized_components(split_at_char(p, '/'));
    lemma_split_pieces_slash_free(p);
    lemma_normalized_proper(split_at_char(p, '/'));
    if comps.len() == 0 {
        let root = seq!['/'];
        assert(spec_normalize_absolute_path(p) == root);
        let e = Seq::<char>::empty();
        assert(root.drop_last() =~= e);
        assert(root.last() == '/');
        assert(split_at_char(e, '/') == seq![e]);
        assert(split_at_char(root, '/') == seq![e].push(e));
        let two = seq![e].push(e);
        let one = seq![e];
        assert(two.drop_last() =~= one);
        assert(one.drop_last() =~= Seq::<Seq<char>>::empty());
        assert(one.last() == e);
        assert(two.last() == e);
        assert(normalized_components(one.drop_last()) == Seq::<Seq<char>>::empty());
        assert(normalized_components(one) == step_component(Seq::<Seq<char>>::empty(), e));
        assert(normalized_components(one) =~= Seq::<Seq<char>>::empty());
        assert(normalized_components(two) == step_component(normalized_components(one), e));
        assert(normalized_components(two) =~= Seq::<Seq<char>>::empty());
    } else {
        lemma_slash_join_begins_with_slash(comps);
        lemma_split_of_join(comps);
        lemma_normalize_proper(comps);
    }
}

/// Expanding and resolving always gives a normalized absolute path.
pub proof fn law_resolved_paths_are_normalized(p: Seq<char>, home: Seq<char>, cwd: Seq<char>)
    ensures
        begins_with(spec_expand_and_resolve_path(p, home, cwd), '/'),
        spec_normalize_absolute_path(spec_expand_and_resolve_path(p, home, cwd))
            == spec_expand_and_resolve_path(p, home, cwd),
{
    let e = spec_expand_tilde(p, home);
    if begins_with(e, '/') {
        law_normalize_is_idempotent(e);
    } else {
        law_normalize_is_idempotent(cwd + seq!['/'] + e);
    }
}

} // verus!

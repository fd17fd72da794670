//! Slugs: the restricted names embedded in Docker image and container names.

use vstd::prelude::*;
use crate::text::{chars_of, string_of};

verus! {

/// An ASCII letter or digit.
pub open spec fn is_ascii_alnum(c: char) -> bool {
    ('a' <= c && c <= 'z') || ('A' <= c && c <= 'Z') || ('0' <= c && c <= '9')
}

/// A character that survives slugification unchanged.
pub open spec fn is_kept_char(c: char) -> bool {
    is_ascii_alnum(c) || c == '_'
}

/// Every character that is not kept becomes `_`.
pub open spec fn replace_unkept(s: Seq<char>) -> Seq<char> {
    s.map_values(|c: char| if is_kept_char(c) { c } else { '_' })
}

/// Runs of `_` collapsed into a single `_`.
pub open spec fn collapse_underscores(s: Seq<char>) -> Seq<char>
    decreases s.len(),
{
    if s.len() == 0 {
        s
    } else {
        let r = collapse_underscores(s.drop_last());
        if s.last() == '_' && r.len() > 0 && r.last() == '_' {
            r
        } else {
            r.push(s.last())
        }
    }
}

/// Leading `_` removed.
pub open spec fn trim_leading_underscores(s: Seq<char>) -> Seq<char>
    decreases s.len(),
{
    if s.len() > 0 && s[0] == '_' {
        trim_leading_underscores(s.drop_first())
    } else {
        s
    }
}

/// Trailing `_` removed.
pub open spec fn trim_trailing_underscores(s: Seq<char>) -> Seq<char>
    decreases s.len(),
{
    if s.len() > 0 && s.last() == '_' {
        trim_trailing_underscores(s.drop_last())
    } else {
        s
    }
}

/// The slug of an already lowercased string.
pub open spec fn spec_slug(s: Seq<char>) -> Seq<char> {
    trim_trailing_underscores(trim_leading_underscores(collapse_underscores(replace_unkept(s))))
}

/// What `str::to_lowercase` returns for a string: its lowercase equivalent under the Unicode
/// `Lowercase` property, as computed by the standard library.
pub uninterp spec fn lowercase_of(s: Seq<char>) -> Seq<char>;

/// Every character of `s` is ASCII.
pub open spec fn is_ascii_text(s: Seq<char>) -> bool {
    forall|i: int| 0 <= i < s.len() ==> (#[trigger] s[i] as u32) < 128
}

/// An ASCII uppercase letter.
pub open spec fn is_ascii_upper(c: char) -> bool {
    'A' <= c && c <= 'Z'
}

/// `c` with an ASCII uppercase letter mapped to its lowercase letter.
pub open spec fn ascii_lower_char(c: char) -> char {
    if is_ascii_upper(c) {
        ((c as u32) + 32) as char
    } else {
        c
    }
}

/// `s` holds no ASCII uppercase letter.
pub open spec fn has_no_ascii_upper(s: Seq<char>) -> bool {
    forall|i: int| 0 <= i < s.len() ==> !is_ascii_upper(#[trigger] s[i])
}

/// `s` with every ASCII uppercase letter mapped to its lowercase letter.
pub open spec fn ascii_lowercase(s: Seq<char>) -> Seq<char> {
    s.map_values(|c: char| ascii_lower_char(c))
}

/// `str::to_lowercase`. The contract names the result and states two short facts of it: the
/// result is the lowercase equivalent, so it holds no ASCII uppercase letter (`A`-`Z`); and on
/// ASCII text, `A`-`Z` become `a`-`z` and every other character is kept. Unicode case mapping
/// beyond that is left to the standard library and not restated here.
#[verifier::external_body]
fn to_lowercase(s: &str) -> (res: String)
    ensures
        res@ == lowercase_of(s@),
        has_no_ascii_upper(res@),
        is_ascii_text(s@) ==> res@ == ascii_lowercase(s@),
{
    s.to_lowercase()
}

/// `s` holds no two adjacent `_`.
pub open spec fn no_double_underscore(s: Seq<char>) -> bool {
    forall|i: int| 0 <= i < s.len() - 1 ==> !(#[trigger] s[i] == '_' && s[i + 1] == '_')
}

/// The shape of every slug: only ASCII letters, digits and `_`, no `_` at either end and no
/// two `_` in a row.
pub open spec fn is_slug_shaped(s: Seq<char>) -> bool {
    &&& forall|i: int| 0 <= i < s.len() ==> is_kept_char(#[trigger] s[i])
    &&& no_double_underscore(s)
    &&& (s.len() > 0 ==> s[0] != '_' && s.last() != '_')
}

/// Slug of an already lowercased string: every character other than an ASCII letter, digit or
/// `_` becomes `_`, runs of `_` collapse into one, and `_` at either end is trimmed.
pub fn slug_from_lowercased(lowercased: &str) -> (res: String)
    ensures
        res@ == spec_slug(lowercased@),
{
    let cs = chars_of(lowercased);
    let mut collapsed: Vec<char> = Vec::new();
    let mut i: usize = 0;
    proof {
        assert(cs@.take(0) =~= Seq::<char>::empty());
        assert(replace_unkept(Seq::<char>::empty()) =~= Seq::<char>::empty());
    }
    while i < cs.len()
        invariant
            i <= cs.len(),
            cs@ == lowercased@,
            collapsed@ == collapse_underscores(replace_unkept(cs@.take(i as int))),
        decreases cs.len() - i,
    {
        let c = cs[i];
        let kept = ('a' <= c && c <= 'z') || ('A' <= c && c <= 'Z') || ('0' <= c && c <= '9')
            || c == '_';
        let r = if kept { c } else { '_' };
        let ghost prefix = replace_unkept(cs@.take(i as int));
        assert(replace_unkept(cs@.take(i + 1)) =~= prefix.push(r));
        assert(prefix.push(r).drop_last() =~= prefix);
        if r == '_' && collapsed.len() > 0 && collapsed[collapsed.len() - 1] == '_' {
        } else {
            collapsed.push(r);
        }
        i = i + 1;
    }
    assert(cs@.take(cs.len() as int) =~= cs@);
    let ghost col = collapsed@;
    let mut start: usize = 0;
    assert(col.skip(0) =~= col);
    while start < collapsed.len() && collapsed[start] == '_'
        invariant
            start <= collapsed.len(),
            collapsed@ == col,
            trim_leading_underscores(col.skip(start as int)) == trim_leading_underscores(col),
        decreases collapsed.len() - start,
    {
        assert(col.skip(start as int).drop_first() =~= col.skip(start + 1));
        start = start + 1;
    }
    let ghost lead = col.skip(start as int);
    assert(trim_leading_underscores(lead) == lead);
    let mut end: usize = collapsed.len();
    while end > start && collapsed[end - 1] == '_'
        invariant
            start <= end <= collapsed.len(),
            collapsed@ == col,
            trim_trailing_underscores(col.subrange(start as int, end as int))
                == trim_trailing_underscores(lead),
        decreases end,
    {
        assert(col.subrange(start as int, end as int).drop_last() =~= col.subrange(
            start as int,
            end - 1,
        ));
        end = end - 1;
    }
    assert(lead =~= col.subrange(start as int, collapsed.len() as int));
    let sub = collapsed.as_slice();
    let mut out: Vec<char> = Vec::new();
    let mut k: usize = start;
    while k < end
        invariant
            start <= k <= end,
            end <= collapsed.len(),
            collapsed@ == col,
            sub@ == col,
            out@ == col.subrange(start as int, k as int),
        decreases end - k,
    {
        out.push(sub[k]);
        assert(col.subrange(start as int, k + 1) =~= col.subrange(start as int, k as int).push(
            col[k as int],
        ));
        k = k + 1;
    }
    string_of(out.as_slice())
}

/// Slugify a raw string: lowercase it, then apply `slug_from_lowercased`.
///
/// The result holds only `a`-`z`, `0`-`9` and `_` (see `law_slug_shape` for the rest of its
/// shape), and it is its own slug: slugifying it again gives it back, since it is ASCII text
/// that lowercasing keeps as it is.
pub fn slugify(raw: &str) -> (res: String)
    ensures
        res@ == spec_slug(lowercase_of(raw@)),
        is_ascii_text(raw@) ==> res@ == spec_slug(ascii_lowercase(raw@)),
        is_slug_shaped(res@),
        has_no_ascii_upper(res@),
        is_ascii_text(res@),
        spec_slug(ascii_lowercase(res@)) == res@,
{
    let lowercased = to_lowercase(raw);
    let res = slug_from_lowercased(lowercased.as_str());
    proof {
        law_slug_shape(lowercased@);
        law_lowercase_slug_is_stable(lowercased@);
    }
    res
}

/// Every character of `s` is kept by slugification.
pub open spec fn all_kept(s: Seq<char>) -> bool {
    forall|i: int| 0 <= i < s.len() ==> is_kept_char(#[trigger] s[i])
}

/// `s` holds a character other than `_`.
pub open spec fn has_non_underscore(s: Seq<char>) -> bool {
    exists|i: int| 0 <= i < s.len() && #[trigger] s[i] != '_'
}

/// `s` holds an ASCII letter or digit.
pub open spec fn has_ascii_alnum(s: Seq<char>) -> bool {
    exists|i: int| 0 <= i < s.len() && is_ascii_alnum(#[trigger] s[i])
}

proof fn lemma_replace(s: Seq<char>)
    ensures
        all_kept(replace_unkept(s)),
        has_non_underscore(replace_unkept(s)) <==> has_ascii_alnum(s),
{
    let r = replace_unkept(s);
    assert forall|i: int| 0 <= i < r.len() implies is_kept_char(#[trigger] r[i]) by {}
    if has_ascii_alnum(s) {
        let i = choose|i: int| 0 <= i < s.len() && is_ascii_alnum(#[trigger] s[i]);
        assert(r[i] != '_');
    }
    if has_non_underscore(r) {
        let i = choose|i: int| 0 <= i < r.len() && #[trigger] r[i] != '_';
        assert(is_ascii_alnum(s[i]));
    }
}

proof fn lemma_collapse(s: Seq<char>)
    ensures
        all_kept(s) ==> all_kept(collapse_underscores(s)),
        no_double_underscore(collapse_underscores(s)),
        has_non_underscore(collapse_underscores(s)) <==> has_non_underscore(s),
        collapse_underscores(s).len() <= s.len(),
        s.len() > 0 ==> collapse_underscores(s).len() > 0 && collapse_underscores(s).last() == s.last(),
    decreases s.len(),
{
    if s.len() > 0 {
        let init = s.drop_last();
        lemma_collapse(init);
        let r = collapse_underscores(init);
        let c = s.last();
        let out = collapse_underscores(s);
        if all_kept(s) {
            assert(all_kept(init)) by {
                assert forall|i: int| 0 <= i < init.len() implies is_kept_char(#[trigger] init[i]) by {
                    assert(init[i] == s[i]);
                }
            }
            assert(is_kept_char(s[s.len() - 1]));
        }
        if has_non_underscore(s) {
            let i = choose|i: int| 0 <= i < s.len() && #[trigger] s[i] != '_';
            if i < s.len() - 1 {
                assert(init[i] != '_');
                assert(has_non_underscore(init));
                assert(has_non_underscore(r));
                let j = choose|j: int| 0 <= j < r.len() && #[trigger] r[j] != '_';
                assert(out[j] == r[j]);
                assert(has_non_underscore(out));
            } else {
                assert(out.last() == c);
                assert(out[out.len() - 1] != '_');
            }
        }
        if has_non_underscore(out) {
            let i = choose|i: int| 0 <= i < out.len() && #[trigger] out[i] != '_';
            if c == '_' && r.len() > 0 && r.last() == '_' {
                assert(has_non_underscore(r));
                let j = choose|j: int| 0 <= j < init.len() && #[trigger] init[j] != '_';
                assert(s[j] != '_');
            } else if i < r.len() {
                assert(r[i] != '_');
                assert(has_non_underscore(r));
                let j = choose|j: int| 0 <= j < init.len() && #[trigger] init[j] != '_';
                assert(s[j] != '_');
            } else {
                assert(s[s.len() - 1] != '_');
            }
        }
        if c == '_' && r.len() > 0 && r.last() == '_' {
            assert(init.len() > 0);
        } else {
            assert forall|i: int| 0 <= i < out.len() - 1 implies !(#[trigger] out[i] == '_' && out[i + 1] == '_') by {
                if i < r.len() - 1 {
                    assert(out[i] == r[i] && out[i + 1] == r[i + 1]);
                } else {
                    assert(out[i] == r.last());
                }
            }
        }
    }
}

proof fn lemma_trim_leading(s: Seq<char>)
    ensures
        exists|k: int| 0 <= k <= s.len() && trim_leading_underscores(s) == s.skip(k) && (forall|j: int| 0 <= j < k ==> s[j] == '_'),
        trim_leading_underscores(s).len() > 0 ==> trim_leading_underscores(s)[0] != '_',
    decreases s.len(),
{
    if s.len() > 0 && s[0] == '_' {
        lemma_trim_leading(s.drop_first());
        let k = choose|k: int| 0 <= k <= s.drop_first().len() && trim_leading_underscores(s.drop_first()) == s.drop_first().skip(k) && (forall|j: int| 0 <= j < k ==> s.drop_first()[j] == '_');
        assert(s.drop_first().skip(k) =~= s.skip(k + 1));
        assert forall|j: int| 0 <= j < k + 1 implies s[j] == '_' by {
            if j > 0 {
                assert(s[j] == s.drop_first()[j - 1]);
            }
        }
    } else {
        assert(s.skip(0) =~= s);
    }
}

/// Trimming trailing `_` keeps a prefix and leaves no `_` at the end.
pub proof fn lemma_trim_trailing(s: Seq<char>)
    ensures
        exists|m: int| 0 <= m <= s.len() && trim_trailing_underscores(s) == s.take(m) && (forall|j: int| m <= j < s.len() ==> s[j] == '_'),
        trim_trailing_underscores(s).len() > 0 ==> trim_trailing_underscores(s).last() != '_',
    decreases s.len(),
{
    if s.len() > 0 && s.last() == '_' {
        lemma_trim_trailing(s.drop_last());
        let m = choose|m: int| 0 <= m <= s.drop_last().len() && trim_trailing_underscores(s.drop_last()) == s.drop_last().take(m) && (forall|j: int| m <= j < s.drop_last().len() ==> s.drop_last()[j] == '_');
        assert(s.drop_last().take(m) =~= s.take(m));
        assert forall|j: int| m <= j < s.len() implies s[j] == '_' by {
            if j < s.len() - 1 {
                assert(s[j] == s.drop_last()[j]);
            }
        }
    } else {
        assert(s.take(s.len() as int) =~= s);
    }
}

proof fn lemma_subrange_shape(s: Seq<char>, a: int, b: int)
    requires
        0 <= a <= b <= s.len(),
        all_kept(s) && no_double_underscore(s),
    ensures
        all_kept(s.subrange(a, b)),
        no_double_underscore(s.subrange(a, b)),
{
    let t = s.subrange(a, b);
    assert forall|i: int| 0 <= i < t.len() implies is_kept_char(#[trigger] t[i]) by {
        assert(t[i] == s[a + i]);
    }
    assert forall|i: int| 0 <= i < t.len() - 1 implies !(#[trigger] t[i] == '_' && t[i + 1] == '_') by {
        assert(t[i] == s[a + i] && t[i + 1] == s[a + i + 1]);
    }
}

/// Every slug has the slug shape: only ASCII letters, digits and `_`, no `_` at either end and
/// no two `_` in a row. A slug is empty exactly when its input holds no ASCII letter or digit.
pub proof fn law_slug_shape(s: Seq<char>)
    ensures
        is_slug_shaped(spec_slug(s)),
        spec_slug(s).len() > 0 <==> has_ascii_alnum(s),
{
    let r = replace_unkept(s);
    lemma_replace(s);
    let c = collapse_underscores(r);
    lemma_collapse(r);
    let l = trim_leading_underscores(c);
    lemma_trim_leading(c);
    let k = choose|k: int| 0 <= k <= c.len() && l == c.skip(k) && (forall|j: int| 0 <= j < k ==> c[j] == '_');
    assert(c.skip(k) =~= c.subrange(k, c.len() as int));
    lemma_subrange_shape(c, k, c.len() as int);
    let t = trim_trailing_underscores(l);
    lemma_trim_trailing(l);
    let m = choose|m: int| 0 <= m <= l.len() && t == l.take(m) && (forall|j: int| m <= j < l.len() ==> l[j] == '_');
    assert(l.take(m) =~= l.subrange(0, m));
    lemma_subrange_shape(l, 0, m);
    if t.len() > 0 {
        assert(t[0] == l[0]);
    }
    // Non-emptiness.
    if has_ascii_alnum(s) {
        let i = choose|i: int| 0 <= i < c.len() && #[trigger] c[i] != '_';
        assert(i >= k);
        assert(l[i - k] != '_');
        assert(i - k < m);
        assert(t[i - k] != '_');
    }
    if t.len() > 0 {
        assert(t[0] != '_');
        assert(l[0] != '_');
        assert(c[k] != '_');
        assert(has_non_underscore(c));
    }
}

/// Slugifying a slug changes nothing.
pub proof fn law_slug_is_idempotent(s: Seq<char>)
    ensures
        spec_slug(spec_slug(s)) == spec_slug(s),
{
    law_slug_shape(s);
    let q = spec_slug(s);
    assert(replace_unkept(q) =~= q);
    lemma_collapse_identity(q);
    if q.len() > 0 {
        assert(q[0] != '_');
    } else {
        assert(trim_leading_underscores(q) == q);
    }
    assert(trim_leading_underscores(q) == q);
    assert(trim_trailing_underscores(q) == q);
}

proof fn lemma_collapse_identity(q: Seq<char>)
    requires
        no_double_underscore(q),
    ensures
        collapse_underscores(q) == q,
    decreases q.len(),
{
    if q.len() > 0 {
        let init = q.drop_last();
        assert(no_double_underscore(init)) by {
            assert forall|i: int| 0 <= i < init.len() - 1 implies !(#[trigger] init[i] == '_' && init[i + 1] == '_') by {
                assert(init[i] == q[i] && init[i + 1] == q[i + 1]);
            }
        }
        lemma_collapse_identity(init);
        if q.last() == '_' && init.len() > 0 {
            assert(!(q[q.len() - 2] == '_' && q[q.len() - 1] == '_'));
            assert(init.last() == q[q.len() - 2]);
        }
        assert(init.push(q.last()) =~= q);
    }
}

/// The slug of a string with no ASCII uppercase letter (every string that `str::to_lowercase`
/// returns) holds no uppercase letter either, and slugifying it again changes nothing: it is
/// ASCII itself, lowercasing keeps it as it is, and it is its own slug.
pub proof fn law_lowercase_slug_is_stable(low: Seq<char>)
    requires
        has_no_ascii_upper(low),
    ensures
        has_no_ascii_upper(spec_slug(low)),
        is_ascii_text(spec_slug(low)),
        ascii_lowercase(spec_slug(low)) == spec_slug(low),
        spec_slug(ascii_lowercase(spec_slug(low))) == spec_slug(low),
{
    let q = spec_slug(low);
    lemma_slug_chars_come_from_input(low);
    law_slug_shape(low);
    assert forall|i: int| 0 <= i < q.len() implies !is_ascii_upper(#[trigger] q[i]) by {
        if q[i] != '_' {
            let j = choose|j: int| 0 <= j < low.len() && low[j] == q[i];
            assert(!is_ascii_upper(low[j]));
        }
    }
    assert forall|i: int| 0 <= i < q.len() implies (#[trigger] q[i] as u32) < 128 by {
        assert(is_kept_char(q[i]));
    }
    assert(ascii_lowercase(q) =~= q);
    law_slug_is_idempotent(low);
}

/// Every character of a slug other than `_` occurs in its input.
proof fn lemma_slug_chars_come_from_input(s: Seq<char>)
    ensures
        forall|i: int|
            0 <= i < spec_slug(s).len() && #[trigger] spec_slug(s)[i] != '_' ==> exists|j: int|
                0 <= j < s.len() && s[j] == spec_slug(s)[i],
{
    let r = replace_unkept(s);
    lemma_collapse_from_input(r);
    let c = collapse_underscores(r);
    let l = trim_leading_underscores(c);
    lemma_trim_leading(c);
    let k = choose|k: int|
        0 <= k <= c.len() && l == c.skip(k) && (forall|j: int| 0 <= j < k ==> c[j] == '_');
    let t = trim_trailing_underscores(l);
    lemma_trim_trailing(l);
    let m = choose|m: int|
        0 <= m <= l.len() && t == l.take(m) && (forall|j: int| m <= j < l.len() ==> l[j] == '_');
    assert forall|i: int| 0 <= i < t.len() && #[trigger] t[i] != '_' implies exists|j: int|
        0 <= j < s.len() && s[j] == t[i] by {
        assert(t[i] == c[k + i]);
        let p = choose|p: int| 0 <= p < r.len() && r[p] == c[k + i];
        assert(s[p] == r[p]);
    }
}

/// Every character of a collapsed string other than `_` occurs in the string.
proof fn lemma_collapse_from_input(s: Seq<char>)
    ensures
        forall|i: int|
            0 <= i < collapse_underscores(s).len() && #[trigger] collapse_underscores(s)[i] != '_'
                ==> exists|j: int| 0 <= j < s.len() && s[j] == collapse_underscores(s)[i],
    decreases s.len(),
{
    if s.len() > 0 {
        let init = s.drop_last();
        lemma_collapse_from_input(init);
        let r = collapse_underscores(init);
        let out = collapse_underscores(s);
        assert forall|i: int| 0 <= i < out.len() && #[trigger] out[i] != '_' implies exists|j: int|
            0 <= j < s.len() && s[j] == out[i] by {
            if i < r.len() {
                assert(out[i] == r[i]);
                let j = choose|j: int| 0 <= j < init.len() && init[j] == r[i];
                assert(s[j] == init[j]);
            } else {
                assert(out[i] == s[s.len() - 1]);
            }
        }
    }
}

} // verus!

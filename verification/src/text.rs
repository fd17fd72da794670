//! Character-level string helpers shared by the rest of the library.

use vstd::prelude::*;

verus! {

/// `String::push` appends one character.
pub assume_specification[ String::push ](s: &mut String, ch: char)
    ensures
        final(s)@ == old(s)@.push(ch),
;

/// The pieces of `s` between occurrences of `sep`, as `str::split` yields them: one more piece
/// than there are separators, empty pieces included.
pub open spec fn split_at_char(s: Seq<char>, sep: char) -> Seq<Seq<char>>
    decreases s.len(),
{
    if s.len() == 0 {
        seq![Seq::<char>::empty()]
    } else {
        let pieces = split_at_char(s.drop_last(), sep);
        if s.last() == sep {
            pieces.push(Seq::<char>::empty())
        } else {
            pieces.update(pieces.len() - 1, pieces.last().push(s.last()))
        }
    }
}

/// The characters of `s`, in order.
pub fn chars_of(s: &str) -> (res: Vec<char>)
    ensures
        res@ == s@,
{
    let mut res: Vec<char> = Vec::new();
    for c in it: s.chars()
        invariant
            res@ == it.seq().take(it.index() as int),
    {
        res.push(c);
    }
    res
}

/// A `String` holding exactly the characters of `cs`.
pub fn string_of(cs: &[char]) -> (res: String)
    ensures
        res@ == cs@,
{
    let mut res = String::new();
    let mut i: usize = 0;
    while i < cs.len()
        invariant
            i <= cs.len(),
            res@ == cs@.take(i as int),
        decreases cs.len() - i,
    {
        res.push(cs[i]);
        assert(cs@.take(i + 1) == cs@.take(i as int).push(cs@[i as int]));
        i = i + 1;
    }
    assert(cs@.take(cs.len() as int) == cs@);
    res
}

/// Append the characters of `cs` to `out`.
pub fn append_chars(out: &mut Vec<char>, cs: &[char])
    ensures
        final(out)@ == old(out)@ + cs@,
{
    let mut i: usize = 0;
    while i < cs.len()
        invariant
            i <= cs.len(),
            out@ == old(out)@ + cs@.take(i as int),
        decreases cs.len() - i,
    {
        out.push(cs[i]);
        assert(cs@.take(i + 1) == cs@.take(i as int).push(cs@[i as int]));
        i = i + 1;
    }
    assert(cs@.take(cs.len() as int) == cs@);
}

/// The views of a sequence of character vectors.
pub open spec fn char_views(s: Seq<Vec<char>>) -> Seq<Seq<char>> {
    s.map_values(|v: Vec<char>| v@)
}

/// The decimal digit character for `d < 10`.
pub open spec fn digit_char(d: nat) -> char {
    (d + 48) as char
}

/// The decimal representation of `n`, without leading zeros.
pub open spec fn decimal(n: nat) -> Seq<char>
    decreases n,
{
    if n < 10 {
        seq![digit_char(n)]
    } else {
        decimal(n / 10).push(digit_char(n % 10))
    }
}

/// The decimal digits of `n`.
pub fn decimal_chars(n: u32) -> (res: Vec<char>)
    ensures
        res@ == decimal(n as nat),
    decreases n,
{
    let d: u32 = n % 10;
    let c: char = ((d as u8) + 48u8) as char;
    assert(c == digit_char(d as nat));
    if n < 10 {
        let mut res: Vec<char> = Vec::new();
        res.push(c);
        assert(res@ =~= seq![digit_char(n as nat)]);
        res
    } else {
        let mut res = decimal_chars(n / 10);
        res.push(c);
        res
    }
}

/// Bounds on the length of a decimal representation.
pub proof fn lemma_decimal_len(n: nat)
    ensures
        decimal(n).len() >= 1,
        n < 1_000_000 ==> decimal(n).len() <= 6,
    decreases n,
{
    if n >= 10 {
        lemma_decimal_len(n / 10);
    }
    if n < 1_000_000 {
        assert(pow10(6) == 1_000_000) by {
            reveal_with_fuel(pow10, 7);
        }
        lemma_decimal_len_bound(n, 6);
    }
}

/// `10^k` for small `k`.
pub open spec fn pow10(k: nat) -> nat
    decreases k,
{
    if k == 0 {
        1
    } else {
        10 * pow10((k - 1) as nat)
    }
}

/// A number below `10^k` (with `k >= 1`) has at most `k` decimal digits.
pub proof fn lemma_decimal_len_bound(n: nat, k: nat)
    requires
        k >= 1,
        n < pow10(k),
    ensures
        decimal(n).len() <= k,
    decreases n,
{
    if n >= 10 {
        assert(k >= 2) by {
            if k == 1 {
                assert(pow10(1) == 10 * pow10(0));
            }
        }
        assert(pow10(k) == 10 * pow10((k - 1) as nat));
        assert(n / 10 < pow10((k - 1) as nat)) by (nonlinear_arith)
            requires
                n < 10 * pow10((k - 1) as nat),
        ;
        lemma_decimal_len_bound(n / 10, (k - 1) as nat);
    }
}

/// The characters of `cs` from index `from` (inclusive) to `to` (exclusive).
pub fn sub_chars(cs: &Vec<char>, from: usize, to: usize) -> (res: Vec<char>)
    requires
        from <= to <= cs@.len(),
    ensures
        res@ == cs@.subrange(from as int, to as int),
{
    let mut res: Vec<char> = Vec::new();
    let mut i: usize = from;
    while i < to
        invariant
            from <= i <= to,
            to <= cs@.len(),
            res@ == cs@.subrange(from as int, i as int),
        decreases to - i,
    {
        res.push(cs[i]);
        assert(cs@.subrange(from as int, i + 1) =~= cs@.subrange(from as int, i as int).push(
            cs@[i as int],
        ));
        i = i + 1;
    }
    res
}

/// `i` is the index of the first `c` in `s`.
pub open spec fn is_first_index(s: Seq<char>, c: char, i: int) -> bool {
    0 <= i < s.len() && s[i] == c && forall|j: int| 0 <= j < i ==> s[j] != c
}

/// `i` is the index of the last `c` in `s`.
pub open spec fn is_last_index(s: Seq<char>, c: char, i: int) -> bool {
    0 <= i < s.len() && s[i] == c && forall|j: int| i < j < s.len() ==> s[j] != c
}

/// The index of the first `c` in `s` (meaningful when `s` contains `c`).
pub open spec fn first_index(s: Seq<char>, c: char) -> int {
    choose|i: int| is_first_index(s, c, i)
}

/// The index of the last `c` in `s` (meaningful when `s` contains `c`).
pub open spec fn last_index(s: Seq<char>, c: char) -> int {
    choose|i: int| is_last_index(s, c, i)
}

/// The first index of a character is unique.
pub proof fn lemma_first_index(s: Seq<char>, c: char, i: int)
    requires
        is_first_index(s, c, i),
    ensures
        first_index(s, c) == i,
        s.contains(c),
{
    let j = first_index(s, c);
    assert(is_first_index(s, c, j));
    assert(j == i) by {
        if j < i {
            assert(s[j] != c);
        } else if j > i {
            assert(s[i] != c);
        }
    }
}

/// The last index of a character is unique.
pub proof fn lemma_last_index(s: Seq<char>, c: char, i: int)
    requires
        is_last_index(s, c, i),
    ensures
        last_index(s, c) == i,
        s.contains(c),
{
    let j = last_index(s, c);
    assert(is_last_index(s, c, j));
    assert(j == i) by {
        if j < i {
            assert(s[i] != c);
        } else if j > i {
            assert(s[j] != c);
        }
    }
}

/// The index of the first `c` in `cs`, if any.
pub fn find_first(cs: &Vec<char>, c: char) -> (res: Option<usize>)
    ensures
        match res {
            Some(i) => is_first_index(cs@, c, i as int),
            None => !cs@.contains(c),
        },
{
    let mut i: usize = 0;
    while i < cs.len()
        invariant
            i <= cs@.len(),
            forall|j: int| 0 <= j < i ==> cs@[j] != c,
        decreases cs.len() - i,
    {
        if cs[i] == c {
            return Some(i);
        }
        i = i + 1;
    }
    None
}

/// The index of the last `c` in `cs`, if any.
pub fn find_last_char(cs: &Vec<char>, c: char) -> (res: Option<usize>)
    ensures
        match res {
            Some(i) => is_last_index(cs@, c, i as int),
            None => !cs@.contains(c),
        },
{
    let mut i: usize = cs.len();
    while i > 0
        invariant
            i <= cs@.len(),
            forall|j: int| i <= j < cs@.len() ==> cs@[j] != c,
        decreases i,
    {
        if cs[i - 1] == c {
            return Some(i - 1);
        }
        i = i - 1;
    }
    None
}

/// A `String` with the characters of `s`.
pub fn owned(s: &str) -> (res: String)
    ensures
        res@ == s@,
{
    let cs = chars_of(s);
    string_of(cs.as_slice())
}

/// `a` followed by `b`.
pub fn prefixed(a: &str, b: &str) -> (res: String)
    ensures
        res@ == a@ + b@,
{
    let mut cs = chars_of(a);
    append_chars(&mut cs, chars_of(b).as_slice());
    string_of(cs.as_slice())
}

/// `a` followed by `sep` and `b`.
pub fn joined(a: &str, sep: char, b: &str) -> (res: String)
    ensures
        res@ == a@ + seq![sep] + b@,
{
    let mut cs = chars_of(a);
    cs.push(sep);
    append_chars(&mut cs, chars_of(b).as_slice());
    string_of(cs.as_slice())
}

} // verus!

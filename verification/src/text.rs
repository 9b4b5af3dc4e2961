// Character-sequence utilities shared by every detector: conversion between
// `&str`/`String` and `Vec<char>`, line splitting, trimming, searching and
// decimal rendering, each with the mathematical model it computes.
use vstd::prelude::*;

use crate::unicode::{is_white_space, white_space};

verus! {

/// The characters of `s`, in order.
pub fn chars_of(s: &str) -> (v: Vec<char>)
    ensures
        v@ == s@,
{
    let mut v: Vec<char> = Vec::new();
    for c in it: s.chars()
        invariant
            v@ == it.seq().take(it.index() as int),
    {
        v.push(c);
    }
    v
}

/// Appends one character to a `String` (`String::push`).
#[verifier::external_body]
pub(crate) fn push_char(s: &mut String, c: char)
    ensures
        final(s)@ == old(s)@.push(c),
{
    s.push(c);
}

/// The `String` holding exactly the characters of `v`.
pub fn string_of(v: &Vec<char>) -> (s: String)
    ensures
        s@ == v@,
{
    let mut s = String::new();
    let mut i: usize = 0;
    while i < v.len()
        invariant
            i <= v.len(),
            s@ == v@.take(i as int),
        decreases v.len() - i,
    {
        push_char(&mut s, v[i]);
        i = i + 1;
        assert(s@ =~= v@.take(i as int));
    }
    assert(v@.take(v.len() as int) =~= v@);
    s
}

} // verus!

verus! {

/// The character sequences of a vector of character vectors.
/// The texts of some strings.
pub open spec fn strings_view(v: Seq<String>) -> Seq<Seq<char>> {
    Seq::new(v.len(), |i: int| v[i]@)
}

pub open spec fn seqs_of(v: Seq<Vec<char>>) -> Seq<Seq<char>> {
    Seq::new(v.len(), |i: int| v[i]@)
}

pub proof fn lemma_seqs_of_push(v: Seq<Vec<char>>, x: Vec<char>)
    ensures
        seqs_of(v.push(x)) == seqs_of(v).push(x@),
{
    assert(seqs_of(v.push(x)) =~= seqs_of(v).push(x@));
}

/// Number of occurrences of `c` in `s`.
pub open spec fn count_char(s: Seq<char>, c: char) -> nat
    decreases s.len(),
{
    if s.len() == 0 {
        0
    } else {
        count_char(s.drop_last(), c) + if s.last() == c {
            1nat
        } else {
            0nat
        }
    }
}

pub proof fn lemma_count_char_concat(a: Seq<char>, b: Seq<char>, c: char)
    ensures
        count_char(a + b, c) == count_char(a, c) + count_char(b, c),
    decreases b.len(),
{
    if b.len() == 0 {
        assert(a + b =~= a);
    } else {
        lemma_count_char_concat(a, b.drop_last(), c);
        assert((a + b).drop_last() =~= a + b.drop_last());
    }
}

pub proof fn lemma_count_char_push(a: Seq<char>, x: char, c: char)
    ensures
        count_char(a.push(x), c) == count_char(a, c) + if x == c {
            1nat
        } else {
            0nat
        },
{
    assert(a.push(x).drop_last() =~= a);
}

pub proof fn lemma_count_char_le(s: Seq<char>, c: char)
    ensures
        count_char(s, c) <= s.len(),
    decreases s.len(),
{
    if s.len() > 0 {
        lemma_count_char_le(s.drop_last(), c);
    }
}

pub proof fn lemma_count_char_single(x: char, c: char)
    ensures
        count_char(seq![x], c) == if x == c {
            1nat
        } else {
            0nat
        },
{
    lemma_count_char_push(Seq::<char>::empty(), x, c);
    assert(Seq::<char>::empty().push(x) =~= seq![x]);
}

/// Counts the occurrences of `c` in `s`.
pub fn count_of(s: &Vec<char>, c: char) -> (n: usize)
    ensures
        n == count_char(s@, c),
{
    let mut n: usize = 0;
    let mut i: usize = 0;
    while i < s.len()
        invariant
            i <= s.len(),
            n == count_char(s@.take(i as int), c),
            n <= i,
        decreases s.len() - i,
    {
        proof {
            lemma_count_char_push(s@.take(i as int), s@[i as int], c);
            assert(s@.take(i as int).push(s@[i as int]) =~= s@.take(i + 1));
        }
        if s[i] == c {
            n = n + 1;
        }
        i = i + 1;
    }
    assert(s@.take(s.len() as int) =~= s@);
    n
}

/// `n` newline characters.
pub open spec fn newlines(n: nat) -> Seq<char> {
    Seq::new(n, |i: int| '\n')
}

pub proof fn lemma_count_newlines(n: nat)
    ensures
        count_char(newlines(n), '\n') == n,
    decreases n,
{
    if n > 0 {
        lemma_count_newlines((n - 1) as nat);
        assert(newlines(n).drop_last() =~= newlines((n - 1) as nat));
    } else {
        assert(newlines(n) =~= Seq::<char>::empty());
    }
}

/// Appends `n` newline characters.
pub fn push_newlines(out: &mut Vec<char>, n: usize)
    ensures
        final(out)@ == old(out)@ + newlines(n as nat),
{
    let mut k: usize = 0;
    while k < n
        invariant
            k <= n,
            out@ == old(out)@ + newlines(k as nat),
        decreases n - k,
    {
        out.push('\n');
        k = k + 1;
        assert(out@ =~= old(out)@ + newlines(k as nat));
    }
}

/// Appends `t` to `out`.
pub fn push_all(out: &mut Vec<char>, t: &Vec<char>)
    ensures
        final(out)@ == old(out)@ + t@,
{
    let mut k: usize = 0;
    while k < t.len()
        invariant
            k <= t.len(),
            out@ == old(out)@ + t@.take(k as int),
        decreases t.len() - k,
    {
        out.push(t[k]);
        k = k + 1;
        assert(out@ =~= old(out)@ + t@.take(k as int));
    }
    assert(t@.take(t.len() as int) =~= t@);
}

/// The subsequence `s[from..to]` as a vector.
pub fn slice_of(s: &Vec<char>, from: usize, to: usize) -> (r: Vec<char>)
    requires
        from <= to <= s.len(),
    ensures
        r@ == s@.subrange(from as int, to as int),
{
    let mut r: Vec<char> = Vec::new();
    let mut k: usize = from;
    while k < to
        invariant
            from <= k <= to <= s.len(),
            r@ == s@.subrange(from as int, k as int),
        decreases to - k,
    {
        r.push(s[k]);
        k = k + 1;
        assert(r@ =~= s@.subrange(from as int, k as int));
    }
    r
}

// ---------------------------------------------------------------------------
// Lines, in the sense of `str::lines`.

/// The pieces of `s` between `'\n'` characters; always at least one piece.
pub open spec fn split_nl(s: Seq<char>) -> Seq<Seq<char>>
    decreases s.len(),
{
    if s.len() == 0 {
        seq![Seq::<char>::empty()]
    } else {
        let p = split_nl(s.drop_last());
        if s.last() == '\n' {
            p.push(Seq::<char>::empty())
        } else {
            p.update(p.len() - 1, p.last().push(s.last()))
        }
    }
}

pub proof fn lemma_split_nl_len(s: Seq<char>)
    ensures
        split_nl(s).len() == count_char(s, '\n') + 1,
    decreases s.len(),
{
    if s.len() > 0 {
        lemma_split_nl_len(s.drop_last());
    }
}

/// The last piece between newlines ends the text.
pub proof fn lemma_split_nl_suffix(s: Seq<char>)
    ensures
        split_nl(s).len() >= 1,
        split_nl(s).last().len() <= s.len(),
        s.subrange(s.len() - split_nl(s).last().len(), s.len() as int) == split_nl(s).last(),
    decreases s.len(),
{
    if s.len() == 0 {
        assert(s.subrange(0, 0) =~= split_nl(s).last());
    } else {
        let t = s.drop_last();
        lemma_split_nl_suffix(t);
        let p = split_nl(t);
        if s.last() == '\n' {
            assert(s.subrange(s.len() as int, s.len() as int) =~= split_nl(s).last());
        } else {
            let q = p.last();
            assert(split_nl(s).last() == q.push(s.last()));
            assert(s.subrange(s.len() - (q.len() + 1), s.len() as int) =~= t.subrange(
                t.len() - q.len(),
                t.len() as int,
            ).push(s.last()));
        }
    }
}

/// Each piece between newlines stands in the text.
pub proof fn lemma_split_nl_within(s: Seq<char>, k: int)
    requires
        0 <= k < split_nl(s).len(),
    ensures
        exists|a: int|
            0 <= a && a + split_nl(s)[k].len() <= s.len() && #[trigger] s.subrange(a, a + split_nl(s)[k].len())
                == split_nl(s)[k],
    decreases s.len(),
{
    lemma_split_nl_suffix(s);
    if k == split_nl(s).len() - 1 {
        let a = s.len() - split_nl(s)[k].len();
        assert(s.subrange(a, a + split_nl(s)[k].len()) == split_nl(s)[k]);
    } else {
        let t = s.drop_last();
        let p = split_nl(t);
        assert(s.len() > 0) by {
            if s.len() == 0 {
                assert(split_nl(s).len() == 1);
            }
        }
        lemma_split_nl_suffix(t);
        if s.last() == '\n' {
            assert(split_nl(s) == p.push(Seq::<char>::empty()));
            assert(split_nl(s)[k] == p[k]);
        } else {
            assert(split_nl(s) == p.update(p.len() - 1, p.last().push(s.last())));
            assert(split_nl(s)[k] == p[k]);
        }
        lemma_split_nl_within(t, k);
        let a = choose|a: int| 0 <= a && a + p[k].len() <= t.len() && #[trigger] t.subrange(a, a + p[k].len()) == p[k];
        assert(s.subrange(a, a + p[k].len()) =~= t.subrange(a, a + p[k].len()));
    }
}

/// Each line of a text stands in it.
pub proof fn lemma_line_within(s: Seq<char>, i: int)
    requires
        0 <= i < lines_of(s).len(),
    ensures
        exists|a: int|
            0 <= a && a + lines_of(s)[i].len() <= s.len() && #[trigger] s.subrange(a, a + lines_of(s)[i].len())
                == lines_of(s)[i],
{
    let p = split_nl(s);
    lemma_split_nl_suffix(s);
    let k = i;
    assert(k < p.len());
    lemma_split_nl_within(s, k);
    let a = choose|a: int| 0 <= a && a + p[k].len() <= s.len() && #[trigger] s.subrange(a, a + p[k].len()) == p[k];
    let l = lines_of(s)[i];
    assert(l == strip_cr(p[k]) || l == p[k]);
    assert(l.len() <= p[k].len());
    assert(l =~= p[k].subrange(0, l.len() as int));
    assert(s.subrange(a, a + l.len()) =~= p[k].subrange(0, l.len() as int));
}

/// A line ended by `'\n'` loses one trailing `'\r'`.
pub open spec fn strip_cr(l: Seq<char>) -> Seq<char> {
    if l.len() > 0 && l.last() == '\r' {
        l.drop_last()
    } else {
        l
    }
}

/// The lines of `s` as `str::lines` yields them: pieces between newlines, a
/// `'\r'` before a newline dropped, and no empty last piece.
pub open spec fn lines_of(s: Seq<char>) -> Seq<Seq<char>> {
    let p = split_nl(s);
    let body = Seq::new((p.len() - 1) as nat, |i: int| strip_cr(p[i]));
    if p.last().len() == 0 {
        body
    } else {
        body.push(p.last())
    }
}

/// The lines of `s` (`str::lines`).
pub fn split_lines(s: &Vec<char>) -> (r: Vec<Vec<char>>)
    ensures
        seqs_of(r@) == lines_of(s@),
{
    let mut done: Vec<Vec<char>> = Vec::new();
    let mut cur: Vec<char> = Vec::new();
    let mut i: usize = 0;
    proof {
        assert(s@.take(0) =~= Seq::<char>::empty());
    }
    while i < s.len()
        invariant
            i <= s.len(),
            split_nl(s@.take(i as int)).len() == done@.len() + 1,
            forall|k: int| 0 <= k < done@.len() ==> #[trigger] done@[k]@ == strip_cr(split_nl(s@.take(i as int))[k]),
            cur@ == split_nl(s@.take(i as int)).last(),
        decreases s.len() - i,
    {
        let c = s[i];
        let ghost p = split_nl(s@.take(i as int));
        proof {
            assert(s@.take(i + 1).drop_last() =~= s@.take(i as int));
            assert(s@.take(i + 1).last() == c);
        }
        if c == '\n' {
            let mut line = cur;
            if line.len() > 0 && line[line.len() - 1] == '\r' {
                line.pop();
            }
            assert(line@ == strip_cr(p.last()));
            done.push(line);
            cur = Vec::new();
        } else {
            cur.push(c);
        }
        i = i + 1;
        proof {
            let q = split_nl(s@.take(i as int));
            if c == '\n' {
                assert(q == p.push(Seq::<char>::empty()));
            } else {
                assert(q == p.update(p.len() - 1, p.last().push(c)));
            }
            assert forall|k: int| 0 <= k < done@.len() implies #[trigger] done@[k]@ == strip_cr(q[k]) by {
                if c == '\n' && k == done@.len() - 1 {
                } else {
                }
            }
            assert(cur@ =~= q.last());
        }
    }
    assert(s@.take(s.len() as int) =~= s@);
    let ghost p = split_nl(s@);
    if cur.len() > 0 {
        done.push(cur);
    }
    proof {
        let body = Seq::new((p.len() - 1) as nat, |i: int| strip_cr(p[i]));
        if p.last().len() == 0 {
            assert(seqs_of(done@) =~= body);
        } else {
            assert(seqs_of(done@) =~= body.push(p.last()));
        }
    }
    done
}

} // verus!

verus! {

// ---------------------------------------------------------------------------
// Trimming (`str::trim_start`, `str::trim_end`, `str::trim`).

/// `s` without its leading White_Space characters.
pub open spec fn trim_start(s: Seq<char>) -> Seq<char>
    decreases s.len(),
{
    if s.len() > 0 && is_white_space(s[0]) {
        trim_start(s.drop_first())
    } else {
        s
    }
}

/// `s` without its trailing White_Space characters.
pub open spec fn trim_end(s: Seq<char>) -> Seq<char>
    decreases s.len(),
{
    if s.len() > 0 && is_white_space(s.last()) {
        trim_end(s.drop_last())
    } else {
        s
    }
}

/// `s` without leading and trailing White_Space.
pub open spec fn trim(s: Seq<char>) -> Seq<char> {
    trim_end(trim_start(s))
}

/// Index of the first character of `s[i..]` that is not White_Space.
pub fn skip_ws(s: &Vec<char>, i: usize) -> (j: usize)
    requires
        i <= s.len(),
    ensures
        i <= j <= s.len(),
        trim_start(s@.subrange(i as int, s.len() as int)) == s@.subrange(j as int, s.len() as int),
{
    let mut j = i;
    while j < s.len() && white_space(s[j])
        invariant
            i <= j <= s.len(),
            trim_start(s@.subrange(i as int, s.len() as int)) == trim_start(s@.subrange(j as int, s.len() as int)),
        decreases s.len() - j,
    {
        assert(s@.subrange(j as int, s.len() as int).drop_first() =~= s@.subrange(j + 1, s.len() as int));
        j = j + 1;
    }
    j
}

/// One past the last character of `s[..e]` that is not White_Space.
pub fn back_ws(s: &Vec<char>, lo: usize, e: usize) -> (j: usize)
    requires
        lo <= e <= s.len(),
    ensures
        lo <= j <= e,
        trim_end(s@.subrange(lo as int, e as int)) == s@.subrange(lo as int, j as int),
{
    let mut j = e;
    while j > lo && white_space(s[j - 1])
        invariant
            lo <= j <= e,
            e <= s.len(),
            trim_end(s@.subrange(lo as int, e as int)) == trim_end(s@.subrange(lo as int, j as int)),
        decreases j,
    {
        assert(s@.subrange(lo as int, j as int).drop_last() =~= s@.subrange(lo as int, j - 1));
        j = j - 1;
    }
    j
}

pub proof fn lemma_trim_start_suffix(s: Seq<char>)
    ensures
        exists|k: int| 0 <= k <= s.len() && trim_start(s) == s.subrange(k, s.len() as int),
    decreases s.len(),
{
    if s.len() > 0 && is_white_space(s[0]) {
        lemma_trim_start_suffix(s.drop_first());
        let k = choose|k: int| 0 <= k <= s.drop_first().len() && trim_start(s.drop_first()) == s.drop_first().subrange(k, s.drop_first().len() as int);
        assert(s.drop_first().subrange(k, s.drop_first().len() as int) =~= s.subrange(k + 1, s.len() as int));
    } else {
        assert(s =~= s.subrange(0, s.len() as int));
    }
}

/// The characters of `s` with leading and trailing White_Space removed.
pub fn trimmed(s: &Vec<char>) -> (r: Vec<char>)
    ensures
        r@ == trim(s@),
{
    let i = skip_ws(s, 0);
    assert(s@.subrange(0, s.len() as int) =~= s@);
    let j = back_ws(s, i, s.len());
    slice_of(s, i, j)
}

/// The characters of `s` with trailing White_Space removed.
pub fn trimmed_end(s: &Vec<char>) -> (r: Vec<char>)
    ensures
        r@ == trim_end(s@),
{
    let j = back_ws(s, 0, s.len());
    assert(s@.subrange(0, s.len() as int) =~= s@);
    slice_of(s, 0, j)
}

/// The characters of `s` with leading White_Space removed.
pub fn trimmed_start(s: &Vec<char>) -> (r: Vec<char>)
    ensures
        r@ == trim_start(s@),
{
    let i = skip_ws(s, 0);
    assert(s@.subrange(0, s.len() as int) =~= s@);
    slice_of(s, i, s.len())
}

// ---------------------------------------------------------------------------
// Searching.

/// `p` occurs in `s` at position `i`.
pub open spec fn occurs_at(s: Seq<char>, p: Seq<char>, i: int) -> bool {
    0 <= i && i + p.len() <= s.len() && s.subrange(i, i + p.len()) == p
}

/// Decides `occurs_at`.
pub fn at(s: &Vec<char>, p: &Vec<char>, i: usize) -> (r: bool)
    ensures
        r == occurs_at(s@, p@, i as int),
{
    if i > s.len() || p.len() > s.len() - i {
        return false;
    }
    let mut k: usize = 0;
    while k < p.len()
        invariant
            k <= p.len(),
            i + p.len() <= s.len(),
            s@.subrange(i as int, i + k) == p@.take(k as int),
        decreases p.len() - k,
    {
        if s[i + k] != p[k] {
            assert(s@.subrange(i as int, i + p.len())[k as int] != p@[k as int]);
            return false;
        }
        k = k + 1;
        assert(s@.subrange(i as int, i + k) =~= p@.take(k as int));
    }
    assert(p@.take(p.len() as int) =~= p@);
    true
}

/// The first position `>= i` where `p` occurs in `s`, if any.
pub open spec fn find_from(s: Seq<char>, p: Seq<char>, i: int) -> Option<int>
    decreases s.len() - i,
{
    if i < 0 || i + p.len() > s.len() {
        None
    } else if occurs_at(s, p, i) {
        Some(i)
    } else {
        proof {
            if p.len() == 0 {
                assert(s.subrange(i, i) =~= p);
            }
        }
        find_from(s, p, i + 1)
    }
}

pub proof fn lemma_find_from(s: Seq<char>, p: Seq<char>, i: int)
    requires
        0 <= i,
    ensures
        match find_from(s, p, i) {
            Some(j) => i <= j && occurs_at(s, p, j) && forall|k: int| i <= k < j ==> !occurs_at(s, p, k),
            None => forall|k: int| i <= k ==> !occurs_at(s, p, k),
        },
    decreases s.len() - i,
{
    if i + p.len() > s.len() {
    } else if occurs_at(s, p, i) {
    } else {
        if p.len() == 0 {
            assert(s.subrange(i, i) =~= p);
        }
        lemma_find_from(s, p, i + 1);
    }
}

/// Computes `find_from`.
pub fn find(s: &Vec<char>, p: &Vec<char>, i: usize) -> (r: Option<usize>)
    ensures
        match r {
            Some(j) => find_from(s@, p@, i as int) == Some(j as int),
            None => find_from(s@, p@, i as int) is None,
        },
{
    let mut j = i;
    while j <= s.len() && p.len() <= s.len() - j
        invariant
            i <= j,
            find_from(s@, p@, i as int) == find_from(s@, p@, j as int),
        decreases s.len() + 1 - j,
    {
        if at(s, p, j) {
            return Some(j);
        }
        if p.len() == 0 {
            assert(s@.subrange(j as int, j as int) =~= p@);
        }
        j = j + 1;
    }
    None
}

/// Whether `p` occurs anywhere in `s`.
pub open spec fn contains(s: Seq<char>, p: Seq<char>) -> bool {
    find_from(s, p, 0) is Some
}

/// Decides `contains`.
pub fn has(s: &Vec<char>, p: &Vec<char>) -> (r: bool)
    ensures
        r == contains(s@, p@),
{
    find(s, p, 0).is_some()
}

/// Whether `s` begins with `p`.
pub open spec fn starts_with(s: Seq<char>, p: Seq<char>) -> bool {
    occurs_at(s, p, 0)
}

// ---------------------------------------------------------------------------
// Joining and rendering.

/// The lines `ls` joined by `'\n'`.
pub open spec fn join_nl(ls: Seq<Seq<char>>) -> Seq<char>
    decreases ls.len(),
{
    if ls.len() == 0 {
        Seq::empty()
    } else if ls.len() == 1 {
        ls[0]
    } else {
        join_nl(ls.drop_last()).push('\n') + ls.last()
    }
}

/// The decimal digit for `d < 10`.
pub open spec fn digit(d: int) -> char {
    if d == 0 {
        '0'
    } else if d == 1 {
        '1'
    } else if d == 2 {
        '2'
    } else if d == 3 {
        '3'
    } else if d == 4 {
        '4'
    } else if d == 5 {
        '5'
    } else if d == 6 {
        '6'
    } else if d == 7 {
        '7'
    } else if d == 8 {
        '8'
    } else {
        '9'
    }
}

/// The decimal rendering of `n` (as `format!("{n}")` writes it).
pub open spec fn dec(n: nat) -> Seq<char>
    decreases n,
{
    if n < 10 {
        seq![digit(n as int)]
    } else {
        dec(n / 10).push(digit((n % 10) as int))
    }
}

pub fn digit_char(d: usize) -> (c: char)
    requires
        d < 10,
    ensures
        c == digit(d as int),
{
    if d == 0 {
        '0'
    } else if d == 1 {
        '1'
    } else if d == 2 {
        '2'
    } else if d == 3 {
        '3'
    } else if d == 4 {
        '4'
    } else if d == 5 {
        '5'
    } else if d == 6 {
        '6'
    } else if d == 7 {
        '7'
    } else if d == 8 {
        '8'
    } else {
        '9'
    }
}

/// Appends the decimal rendering of `n`.
pub fn push_dec(out: &mut Vec<char>, n: usize)
    ensures
        final(out)@ == old(out)@ + dec(n as nat),
    decreases n,
{
    if n < 10 {
        out.push(digit_char(n));
        assert(out@ =~= old(out)@ + dec(n as nat));
    } else {
        push_dec(out, n / 10);
        out.push(digit_char(n % 10));
        assert(out@ =~= old(out)@ + dec(n as nat));
    }
}

} // verus!

verus! {

// ---------------------------------------------------------------------------
// Length facts about lines.

pub proof fn lemma_join_nl_extend_last(p: Seq<Seq<char>>, c: char)
    requires
        p.len() >= 1,
    ensures
        join_nl(p.update(p.len() - 1, p.last().push(c))) == join_nl(p).push(c),
{
    let q = p.update(p.len() - 1, p.last().push(c));
    if p.len() == 1 {
    } else {
        assert(q.drop_last() =~= p.drop_last());
        assert(join_nl(q) =~= join_nl(p).push(c));
    }
}

/// Joining the newline-separated pieces of `s` gives `s` back.
pub proof fn lemma_join_split_nl(s: Seq<char>)
    ensures
        join_nl(split_nl(s)) == s,
    decreases s.len(),
{
    if s.len() == 0 {
    } else {
        lemma_join_split_nl(s.drop_last());
        lemma_split_nl_len(s.drop_last());
        let p = split_nl(s.drop_last());
        if s.last() == '\n' {
            let q = p.push(Seq::<char>::empty());
            assert(q.drop_last() =~= p);
            assert(join_nl(q) =~= s);
        } else {
            lemma_join_nl_extend_last(p, s.last());
            assert(s.drop_last().push(s.last()) =~= s);
        }
    }
}

/// No carriage return stands right before a newline.
pub open spec fn no_crlf(s: Seq<char>) -> bool {
    forall|i: int| 0 <= i && i + 1 < s.len() && s[i + 1] == '\n' ==> #[trigger] s[i] != '\r'
}

/// The last newline-separated piece is empty exactly when the text is empty
/// or ends with a newline; otherwise it ends with the text's last character.
pub proof fn lemma_split_nl_last(s: Seq<char>)
    ensures
        split_nl(s).len() >= 1,
        s.len() == 0 ==> split_nl(s).last().len() == 0,
        s.len() > 0 && s.last() == '\n' ==> split_nl(s).last().len() == 0 && split_nl(s).len() >= 2,
        s.len() > 0 && s.last() != '\n' ==> split_nl(s).last().len() > 0 && split_nl(s).last().last() == s.last(),
{
    lemma_split_nl_len(s);
    if s.len() > 0 {
        lemma_split_nl_len(s.drop_last());
    }
}

/// Without a carriage return before a newline, no piece but the last can
/// lose a `'\r'`.
pub proof fn lemma_split_nl_plain(s: Seq<char>)
    requires
        no_crlf(s),
    ensures
        forall|k: int| 0 <= k < split_nl(s).len() - 1 ==> strip_cr(#[trigger] split_nl(s)[k]) == split_nl(s)[k],
    decreases s.len(),
{
    if s.len() > 0 {
        let t = s.drop_last();
        assert(no_crlf(t)) by {
            assert forall|i: int| 0 <= i && i + 1 < t.len() && t[i + 1] == '\n' implies #[trigger] t[i] != '\r' by {
                assert(t[i] == s[i] && t[i + 1] == s[i + 1]);
            }
        }
        lemma_split_nl_plain(t);
        lemma_split_nl_last(t);
        let p = split_nl(t);
        if s.last() == '\n' {
            let q = p.push(Seq::<char>::empty());
            assert forall|k: int| 0 <= k < q.len() - 1 implies strip_cr(#[trigger] q[k]) == q[k] by {
                if k < p.len() - 1 {
                    assert(q[k] == p[k]);
                } else {
                    assert(q[k] == p.last());
                    if p.last().len() > 0 {
                        assert(t.len() > 0 && t.last() != '\n');
                        let i = t.len() - 1;
                        assert(s[i + 1] == '\n');
                        assert(s[i] == t.last());
                    }
                }
            }
        } else {
            let q = p.update(p.len() - 1, p.last().push(s.last()));
            assert forall|k: int| 0 <= k < q.len() - 1 implies strip_cr(#[trigger] q[k]) == q[k] by {
                assert(q[k] == p[k]);
            }
        }
    }
}

/// Without a carriage return before a newline, the lines of a text joined by
/// newlines, and the final newline restored, give the text back.
pub proof fn lemma_lines_of_join(s: Seq<char>)
    requires
        no_crlf(s),
    ensures
        (if s.len() > 0 && s.last() == '\n' {
            join_nl(lines_of(s)).push('\n')
        } else {
            join_nl(lines_of(s))
        }) == s,
{
    let p = split_nl(s);
    lemma_split_nl_last(s);
    lemma_split_nl_plain(s);
    lemma_join_split_nl(s);
    let body = Seq::new((p.len() - 1) as nat, |i: int| strip_cr(p[i]));
    assert(body =~= p.drop_last()) by {
        assert forall|i: int| 0 <= i < body.len() implies body[i] == p.drop_last()[i] by {
            assert(strip_cr(p[i]) == p[i]);
        }
    }
    if p.last().len() == 0 {
        assert(lines_of(s) == p.drop_last());
        if s.len() > 0 {
            assert(p.len() >= 2);
            assert(join_nl(p) == join_nl(p.drop_last()).push('\n') + p.last());
            assert(join_nl(p.drop_last()).push('\n') + p.last() =~= join_nl(p.drop_last()).push('\n'));
        } else {
            assert(p.len() == 1);
            assert(p.drop_last().len() == 0);
        }
    } else {
        assert(lines_of(s) =~= p.drop_last().push(p.last()));
        assert(p.drop_last().push(p.last()) =~= p);
    }
}

/// Joining shorter lines gives a shorter text.
pub proof fn lemma_join_nl_mono(a: Seq<Seq<char>>, b: Seq<Seq<char>>)
    requires
        a.len() == b.len(),
        forall|k: int| 0 <= k < a.len() ==> #[trigger] a[k].len() <= b[k].len(),
    ensures
        join_nl(a).len() <= join_nl(b).len(),
    decreases a.len(),
{
    if a.len() > 1 {
        lemma_join_nl_mono(a.drop_last(), b.drop_last());
    }
}

/// The lines of `s`, joined again, are no longer than `s`.
pub proof fn lemma_lines_of_len(s: Seq<char>)
    ensures
        join_nl(lines_of(s)).len() <= s.len(),
{
    let p = split_nl(s);
    lemma_split_nl_len(s);
    lemma_join_split_nl(s);
    let body = Seq::new((p.len() - 1) as nat, |i: int| strip_cr(p[i]));
    if p.last().len() == 0 {
        if p.len() >= 2 {
            lemma_join_nl_mono(body, p.drop_last());
        }
    } else {
        lemma_join_nl_mono(body.push(p.last()), p);
    }
}

} // verus!

verus! {

// ---------------------------------------------------------------------------
// Replacing every occurrence of a pattern (`str::replace`).

/// `s[i..]` with the non-overlapping occurrences of `p`, leftmost first,
/// replaced by `r`.
pub open spec fn replace_from(s: Seq<char>, p: Seq<char>, r: Seq<char>, i: int) -> Seq<char>
    decreases s.len() - i,
{
    if i < 0 || i > s.len() {
        Seq::empty()
    } else if p.len() == 0 {
        s.subrange(i, s.len() as int)
    } else {
        match find_from(s, p, i) {
            None => s.subrange(i, s.len() as int),
            Some(j) => {
                proof {
                    lemma_find_from(s, p, i);
                }
                s.subrange(i, j) + r + replace_from(s, p, r, j + p.len())
            },
        }
    }
}

/// `s` with every occurrence of `p` replaced by `r`.
pub open spec fn replace_all(s: Seq<char>, p: Seq<char>, r: Seq<char>) -> Seq<char> {
    replace_from(s, p, r, 0)
}

/// Computes `replace_all`.
pub fn replace_exec(s: &Vec<char>, p: &Vec<char>, r: &Vec<char>) -> (o: Vec<char>)
    ensures
        o@ == replace_all(s@, p@, r@),
{
    if p.len() == 0 {
        let o = slice_of(s, 0, s.len());
        return o;
    }
    let mut out: Vec<char> = Vec::new();
    let mut i: usize = 0;
    assert(out@ + replace_from(s@, p@, r@, 0) =~= replace_all(s@, p@, r@));
    loop
        invariant
            i <= s.len(),
            p.len() > 0,
            replace_all(s@, p@, r@) == out@ + replace_from(s@, p@, r@, i as int),
        decreases s.len() - i,
    {
        proof {
            lemma_find_from(s@, p@, i as int);
        }
        let ghost before = out@;
        match find(s, p, i) {
            None => {
                let rest = slice_of(s, i, s.len());
                push_all(&mut out, &rest);
                return out;
            },
            Some(j) => {
                let head = slice_of(s, i, j);
                push_all(&mut out, &head);
                push_all(&mut out, r);
                assert(out@ + replace_from(s@, p@, r@, j + p.len()) =~= before + replace_from(s@, p@, r@, i as int));
                i = j + p.len();
            },
        }
    }
}

/// Replacing a newline-free pattern by newline-free text keeps the newlines.
pub proof fn lemma_replace_newlines(s: Seq<char>, p: Seq<char>, r: Seq<char>, i: int)
    requires
        0 <= i <= s.len(),
        count_char(p, '\n') == 0,
        count_char(r, '\n') == 0,
    ensures
        count_char(replace_from(s, p, r, i), '\n') == count_char(s.subrange(i, s.len() as int), '\n'),
    decreases s.len() - i,
{
    if p.len() > 0 {
        lemma_find_from(s, p, i);
        match find_from(s, p, i) {
            None => {},
            Some(j) => {
                lemma_replace_newlines(s, p, r, j + p.len());
                let a = s.subrange(i, j);
                let rest = replace_from(s, p, r, j + p.len());
                lemma_count_char_concat(a, r, '\n');
                lemma_count_char_concat(a + r, rest, '\n');
                assert(s.subrange(j, j + p.len()) == p);
                lemma_count_char_concat(a, p, '\n');
                lemma_count_char_concat(a + p, s.subrange(j + p.len(), s.len() as int), '\n');
                assert(s.subrange(i, s.len() as int) =~= a + p + s.subrange(j + p.len(), s.len() as int));
            },
        }
    }
}

/// A sequence without `c` has no occurrence of it.
pub proof fn lemma_count_char_none(s: Seq<char>, c: char)
    requires
        forall|k: int| 0 <= k < s.len() ==> s[k] != c,
    ensures
        count_char(s, c) == 0,
    decreases s.len(),
{
    if s.len() > 0 {
        lemma_count_char_none(s.drop_last(), c);
    }
}

} // verus!

verus! {

/// Whether two character vectors are equal.
pub fn vec_eq(a: &Vec<char>, b: &Vec<char>) -> (r: bool)
    ensures
        r == (a@ == b@),
{
    if a.len() != b.len() {
        return false;
    }
    let mut k: usize = 0;
    while k < a.len()
        invariant
            k <= a.len() == b.len(),
            a@.take(k as int) == b@.take(k as int),
        decreases a.len() - k,
    {
        if a[k] != b[k] {
            return false;
        }
        k = k + 1;
        assert(a@.take(k as int) =~= a@.take(k - 1).push(a@[k - 1]));
        assert(b@.take(k as int) =~= b@.take(k - 1).push(b@[k - 1]));
    }
    assert(a@.take(a.len() as int) =~= a@);
    assert(b@.take(b.len() as int) =~= b@);
    true
}

} // verus!

verus! {

// ---------------------------------------------------------------------------
// Alternations of literal words, matched leftmost first.

/// Length of the first of `alts[k..]` that occurs at `p`, or 0.
pub open spec fn alt_len_from(s: Seq<char>, p: int, alts: Seq<Seq<char>>, k: int) -> int
    decreases alts.len() - k,
{
    if k < 0 || k >= alts.len() {
        0
    } else if alts[k].len() > 0 && occurs_at(s, alts[k], p) {
        alts[k].len() as int
    } else {
        alt_len_from(s, p, alts, k + 1)
    }
}

/// Length of the first alternative that occurs at `p`, or 0 if none does.
pub open spec fn alt_len(s: Seq<char>, p: int, alts: Seq<Seq<char>>) -> int {
    alt_len_from(s, p, alts, 0)
}

pub proof fn lemma_alt_len(s: Seq<char>, p: int, alts: Seq<Seq<char>>, k: int)
    requires
        0 <= k,
    ensures
        alt_len_from(s, p, alts, k) == 0 || (0 <= p && p + alt_len_from(s, p, alts, k) <= s.len()
            && alt_len_from(s, p, alts, k) > 0),
    decreases alts.len() - k,
{
    if k < alts.len() && !(alts[k].len() > 0 && occurs_at(s, alts[k], p)) {
        lemma_alt_len(s, p, alts, k + 1);
    }
}

/// Computes `alt_len`.
pub fn alt_len_exec(s: &Vec<char>, p: usize, alts: &Vec<Vec<char>>) -> (l: usize)
    ensures
        l == alt_len(s@, p as int, seqs_of(alts@)),
        l == 0 || (p + l <= s.len() && l > 0),
{
    let ghost g = seqs_of(alts@);
    let mut k: usize = 0;
    while k < alts.len()
        invariant
            k <= alts.len(),
            g == seqs_of(alts@),
            alt_len(s@, p as int, g) == alt_len_from(s@, p as int, g, k as int),
        decreases alts.len() - k,
    {
        if alts[k].len() > 0 && at(s, &alts[k], p) {
            return alts[k].len();
        }
        k = k + 1;
    }
    0
}

/// The words matched in `s[i..]` by the alternation, leftmost first, without overlap.
pub open spec fn alt_matches_from(s: Seq<char>, i: int, alts: Seq<Seq<char>>) -> Seq<Seq<char>>
    decreases s.len() - i,
{
    if i < 0 || i >= s.len() {
        Seq::empty()
    } else {
        let l = alt_len(s, i, alts);
        proof {
            lemma_alt_len(s, i, alts, 0);
        }
        if l > 0 {
            seq![s.subrange(i, i + l)] + alt_matches_from(s, i + l, alts)
        } else {
            alt_matches_from(s, i + 1, alts)
        }
    }
}

/// The words matched in `s` by the alternation (`find_iter`).
pub open spec fn alt_matches(s: Seq<char>, alts: Seq<Seq<char>>) -> Seq<Seq<char>> {
    alt_matches_from(s, 0, alts)
}

/// Computes `alt_matches`.
pub fn alt_matches_exec(s: &Vec<char>, alts: &Vec<Vec<char>>) -> (r: Vec<Vec<char>>)
    ensures
        seqs_of(r@) == alt_matches(s@, seqs_of(alts@)),
{
    let ghost g = seqs_of(alts@);
    let mut out: Vec<Vec<char>> = Vec::new();
    let mut i: usize = 0;
    while i < s.len()
        invariant
            i <= s.len(),
            g == seqs_of(alts@),
            alt_matches(s@, g) == seqs_of(out@) + alt_matches_from(s@, i as int, g),
        decreases s.len() - i,
    {
        let l = alt_len_exec(s, i, alts);
        let ghost before = seqs_of(out@);
        if l > 0 {
            let m = slice_of(s, i, i + l);
            proof {
                lemma_seqs_of_push(out@, m);
            }
            out.push(m);
            assert(seqs_of(out@) + alt_matches_from(s@, i + l, g) =~= before + alt_matches_from(s@, i as int, g));
            i = i + l;
        } else {
            i = i + 1;
        }
    }
    assert(seqs_of(out@) + alt_matches_from(s@, i as int, g) =~= seqs_of(out@));
    out
}

/// The first position `>= i` where an alternative occurs, with its length.
pub open spec fn alt_find_from(s: Seq<char>, i: int, alts: Seq<Seq<char>>) -> Option<(int, int)>
    decreases s.len() - i,
{
    if i < 0 || i >= s.len() {
        None
    } else if alt_len(s, i, alts) > 0 {
        Some((i, alt_len(s, i, alts)))
    } else {
        alt_find_from(s, i + 1, alts)
    }
}

/// Some alternative of `alts[k..]`, not empty, occurs at `p` exactly when
/// `alt_len_from` is positive.
pub proof fn lemma_alt_len_from_iff(s: Seq<char>, p: int, alts: Seq<Seq<char>>, k: int)
    requires
        0 <= k,
    ensures
        alt_len_from(s, p, alts, k) > 0 <==> exists|j: int|
            k <= j < alts.len() && alts[j].len() > 0 && #[trigger] occurs_at(s, alts[j], p),
    decreases alts.len() - k,
{
    if k < alts.len() {
        lemma_alt_len_from_iff(s, p, alts, k + 1);
        if !(alts[k].len() > 0 && occurs_at(s, alts[k], p)) {
            if exists|j: int| k <= j < alts.len() && alts[j].len() > 0 && #[trigger] occurs_at(s, alts[j], p) {
                let j = choose|j: int| k <= j < alts.len() && alts[j].len() > 0 && #[trigger] occurs_at(s, alts[j], p);
                assert(j != k);
            }
        }
    }
}

/// `alt_find_from` finds something exactly when some non-empty alternative
/// occurs at or after `i`.
pub proof fn lemma_alt_find_iff(s: Seq<char>, i: int, alts: Seq<Seq<char>>)
    requires
        0 <= i,
    ensures
        alt_find_from(s, i, alts) is Some <==> exists|p: int, j: int|
            i <= p && 0 <= j < alts.len() && alts[j].len() > 0 && #[trigger] occurs_at(s, alts[j], p),
    decreases s.len() - i,
{
    if i >= s.len() {
        if exists|p: int, j: int| i <= p && 0 <= j < alts.len() && alts[j].len() > 0 && #[trigger] occurs_at(s, alts[j], p) {
            let (p, j) = choose|p: int, j: int|
                i <= p && 0 <= j < alts.len() && alts[j].len() > 0 && #[trigger] occurs_at(s, alts[j], p);
            assert(false);
        }
    } else {
        lemma_alt_len_from_iff(s, i, alts, 0);
        if alt_len(s, i, alts) > 0 {
            let j = choose|j: int| 0 <= j < alts.len() && alts[j].len() > 0 && #[trigger] occurs_at(s, alts[j], i);
            assert(occurs_at(s, alts[j], i));
        } else {
            lemma_alt_find_iff(s, i + 1, alts);
            if exists|p: int, j: int| i <= p && 0 <= j < alts.len() && alts[j].len() > 0 && #[trigger] occurs_at(s, alts[j], p) {
                let (p, j) = choose|p: int, j: int|
                    i <= p && 0 <= j < alts.len() && alts[j].len() > 0 && #[trigger] occurs_at(s, alts[j], p);
                assert(p != i);
                assert(occurs_at(s, alts[j], p));
            }
        }
    }
}

/// `alt_find_from(s, 0, alts)` finds something exactly when `s` contains a
/// non-empty alternative.
pub proof fn lemma_alt_find_contains(s: Seq<char>, alts: Seq<Seq<char>>)
    ensures
        alt_find_from(s, 0, alts) is Some <==> exists|j: int|
            0 <= j < alts.len() && alts[j].len() > 0 && #[trigger] contains(s, alts[j]),
{
    lemma_alt_find_iff(s, 0, alts);
    if alt_find_from(s, 0, alts) is Some {
        let (p, j) = choose|p: int, j: int|
            0 <= p && 0 <= j < alts.len() && alts[j].len() > 0 && #[trigger] occurs_at(s, alts[j], p);
        lemma_find_from(s, alts[j], 0);
        assert(contains(s, alts[j]));
    } else {
        if exists|j: int| 0 <= j < alts.len() && alts[j].len() > 0 && #[trigger] contains(s, alts[j]) {
            let j = choose|j: int| 0 <= j < alts.len() && alts[j].len() > 0 && #[trigger] contains(s, alts[j]);
            lemma_find_from(s, alts[j], 0);
            let p = find_from(s, alts[j], 0)->0;
            assert(occurs_at(s, alts[j], p));
        }
    }
}

/// The elements of a list sorted by line are those of the list.
pub proof fn lemma_sort_by_line_contains<X>(v: Seq<(int, X)>, x: (int, X))
    ensures
        sort_by_line(v).contains(x) <==> v.contains(x),
{
    lemma_sort_by_line_multiset(v);
    v.to_multiset_ensures();
    sort_by_line(v).to_multiset_ensures();
    assert(sort_by_line(v).to_multiset().count(x) == v.to_multiset().count(x));
}

/// Computes `alt_find_from`.
pub fn alt_find_exec(s: &Vec<char>, i0: usize, alts: &Vec<Vec<char>>) -> (r: Option<(usize, usize)>)
    ensures
        match r {
            Some((p, l)) => alt_find_from(s@, i0 as int, seqs_of(alts@)) == Some((p as int, l as int)) && p + l
                <= s.len(),
            None => alt_find_from(s@, i0 as int, seqs_of(alts@)) is None,
        },
{
    let mut i = i0;
    while i < s.len()
        invariant
            i0 <= i,
            alt_find_from(s@, i0 as int, seqs_of(alts@)) == alt_find_from(s@, i as int, seqs_of(alts@)),
        decreases s.len() - i,
    {
        let l = alt_len_exec(s, i, alts);
        if l > 0 {
            return Some((i, l));
        }
        i = i + 1;
    }
    None
}

// ---------------------------------------------------------------------------
// Building messages.

/// Appends the decimal rendering of `n` to a `String`.
pub fn push_dec_str(s: &mut String, n: usize)
    ensures
        final(s)@ == old(s)@ + dec(n as nat),
{
    let mut v: Vec<char> = Vec::new();
    push_dec(&mut v, n);
    assert(v@ =~= Seq::<char>::empty() + dec(n as nat));
    push_vec_str(s, &v);
}

/// Appends the characters of `v` to a `String`.
pub fn push_vec_str(s: &mut String, v: &Vec<char>)
    ensures
        final(s)@ == old(s)@ + v@,
{
    let mut k: usize = 0;
    while k < v.len()
        invariant
            k <= v.len(),
            s@ == old(s)@ + v@.take(k as int),
        decreases v.len() - k,
    {
        push_char(s, v[k]);
        k = k + 1;
        assert(s@ =~= old(s)@ + v@.take(k as int));
    }
    assert(v@.take(v.len() as int) =~= v@);
}

/// The words joined by `sep`.
pub open spec fn join_with(ws: Seq<Seq<char>>, sep: Seq<char>) -> Seq<char>
    decreases ws.len(),
{
    if ws.len() == 0 {
        Seq::empty()
    } else if ws.len() == 1 {
        ws[0]
    } else {
        join_with(ws.drop_last(), sep) + sep + ws.last()
    }
}

/// Appends the words joined by `sep`.
pub fn push_joined(s: &mut String, ws: &Vec<Vec<char>>, sep: &str)
    ensures
        final(s)@ == old(s)@ + join_with(seqs_of(ws@), sep@),
{
    let mut k: usize = 0;
    while k < ws.len()
        invariant
            k <= ws.len(),
            s@ == old(s)@ + join_with(seqs_of(ws@).take(k as int), sep@),
        decreases ws.len() - k,
    {
        let ghost before = s@;
        if k > 0 {
            s.append(sep);
        }
        push_vec_str(s, &ws[k]);
        proof {
            let t = seqs_of(ws@).take(k + 1);
            assert(t.drop_last() =~= seqs_of(ws@).take(k as int));
            if k == 0 {
                assert(join_with(seqs_of(ws@).take(k as int), sep@) =~= Seq::<char>::empty());
                assert(join_with(t, sep@) == ws@[0]@);
            }
            assert(s@ =~= old(s)@ + join_with(t, sep@));
        }
        k = k + 1;
    }
    assert(seqs_of(ws@).take(ws.len() as int) =~= seqs_of(ws@));
}

} // verus!

verus! {

/// The pieces of `s` between occurrences of `c` (`str::split` on a char).
pub open spec fn split_by(s: Seq<char>, c: char) -> Seq<Seq<char>>
    decreases s.len(),
{
    if s.len() == 0 {
        seq![Seq::<char>::empty()]
    } else {
        let p = split_by(s.drop_last(), c);
        if s.last() == c {
            p.push(Seq::<char>::empty())
        } else {
            p.update(p.len() - 1, p.last().push(s.last()))
        }
    }
}

pub proof fn lemma_split_by_len(s: Seq<char>, c: char)
    ensures
        split_by(s, c).len() >= 1,
    decreases s.len(),
{
    if s.len() > 0 {
        lemma_split_by_len(s.drop_last(), c);
    }
}

/// Appending to the last piece appends to the joined text.
pub proof fn lemma_join_with_extend_last(p: Seq<Seq<char>>, sep: Seq<char>, c: char)
    requires
        p.len() >= 1,
    ensures
        join_with(p.update(p.len() - 1, p.last().push(c)), sep) == join_with(p, sep).push(c),
{
    let q = p.update(p.len() - 1, p.last().push(c));
    if p.len() > 1 {
        assert(q.drop_last() =~= p.drop_last());
        assert(join_with(q, sep) =~= join_with(p, sep).push(c));
    }
}

/// Joining the `c`-separated pieces of `s` with `c` gives `s` back.
pub proof fn lemma_join_split_by(s: Seq<char>, c: char)
    ensures
        join_with(split_by(s, c), seq![c]) == s,
    decreases s.len(),
{
    if s.len() > 0 {
        lemma_join_split_by(s.drop_last(), c);
        lemma_split_by_len(s.drop_last(), c);
        let p = split_by(s.drop_last(), c);
        if s.last() == c {
            let q = p.push(Seq::<char>::empty());
            assert(q.drop_last() =~= p);
            assert(join_with(q, seq![c]) =~= s);
        } else {
            lemma_join_with_extend_last(p, seq![c], s.last());
            assert(s.drop_last().push(s.last()) =~= s);
        }
    }
}

/// Computes `split_by`.
pub fn split_by_exec(s: &Vec<char>, c: char) -> (r: Vec<Vec<char>>)
    ensures
        seqs_of(r@) == split_by(s@, c),
{
    let mut done: Vec<Vec<char>> = Vec::new();
    let mut cur: Vec<char> = Vec::new();
    let mut i: usize = 0;
    assert(s@.take(0) =~= Seq::<char>::empty());
    assert(seqs_of(done@).push(cur@) =~= split_by(s@.take(0), c));
    while i < s.len()
        invariant
            i <= s.len(),
            seqs_of(done@).push(cur@) == split_by(s@.take(i as int), c),
        decreases s.len() - i,
    {
        let x = s[i];
        let ghost p = split_by(s@.take(i as int), c);
        proof {
            assert(s@.take(i + 1).drop_last() =~= s@.take(i as int));
            lemma_split_by_len(s@.take(i as int), c);
            lemma_seqs_of_push(done@, cur);
        }
        if x == c {
            done.push(cur);
            cur = Vec::new();
            assert(seqs_of(done@).push(cur@) =~= p.push(Seq::<char>::empty()));
        } else {
            cur.push(x);
            assert(seqs_of(done@).push(cur@) =~= p.update(p.len() - 1, p.last().push(x)));
        }
        i = i + 1;
    }
    assert(s@.take(s.len() as int) =~= s@);
    proof {
        lemma_seqs_of_push(done@, cur);
    }
    done.push(cur);
    done
}

/// Whether `s` ends with `p`.
pub open spec fn ends_with(s: Seq<char>, p: Seq<char>) -> bool {
    p.len() <= s.len() && s.subrange(s.len() - p.len(), s.len() as int) == p
}

/// Decides `ends_with`.
pub fn ends_with_exec(s: &Vec<char>, p: &Vec<char>) -> (r: bool)
    ensures
        r == ends_with(s@, p@),
{
    if p.len() > s.len() {
        return false;
    }
    at(s, p, s.len() - p.len())
}

} // verus!

verus! {

// ---------------------------------------------------------------------------
// Stable sorting by line number (`sort_by_key(|x| x.line)`).

/// The first index `>= k` whose line is greater than `line`, or the length.
pub open spec fn first_after<X>(v: Seq<(int, X)>, line: int, k: int) -> int
    decreases v.len() - k,
{
    if k < 0 || k >= v.len() {
        v.len() as int
    } else if v[k].0 > line {
        k
    } else {
        first_after(v, line, k + 1)
    }
}

pub proof fn lemma_first_after<X>(v: Seq<(int, X)>, line: int, k: int)
    requires
        0 <= k <= v.len(),
    ensures
        k <= first_after(v, line, k) <= v.len(),
    decreases v.len() - k,
{
    if k < v.len() && v[k].0 <= line {
        lemma_first_after(v, line, k + 1);
    }
}

/// `x` inserted after every element whose line is not greater than its own.
pub open spec fn insert_by_line<X>(sorted: Seq<(int, X)>, x: (int, X)) -> Seq<(int, X)> {
    sorted.insert(first_after(sorted, x.0, 0), x)
}

/// `v` stably sorted by line.
pub open spec fn sort_by_line<X>(v: Seq<(int, X)>) -> Seq<(int, X)>
    decreases v.len(),
{
    if v.len() == 0 {
        Seq::empty()
    } else {
        insert_by_line(sort_by_line(v.drop_last()), v.last())
    }
}

pub proof fn lemma_sort_by_line_len<X>(v: Seq<(int, X)>)
    ensures
        sort_by_line(v).len() == v.len(),
    decreases v.len(),
{
    if v.len() > 0 {
        lemma_sort_by_line_len(v.drop_last());
        lemma_first_after(sort_by_line(v.drop_last()), v.last().0, 0);
    }
}

/// A stably sorted sequence is ordered by line.
pub open spec fn lines_sorted<X>(v: Seq<(int, X)>) -> bool {
    forall|i: int, j: int| 0 <= i < j < v.len() ==> v[i].0 <= v[j].0
}

pub proof fn lemma_insert_sorted<X>(s: Seq<(int, X)>, x: (int, X), k: int)
    requires
        lines_sorted(s),
        0 <= k <= s.len(),
        forall|j: int| 0 <= j < k ==> s[j].0 <= x.0,
    ensures
        lines_sorted(s.insert(first_after(s, x.0, k), x)),
    decreases s.len() - k,
{
    if k < s.len() && s[k].0 <= x.0 {
        lemma_insert_sorted(s, x, k + 1);
    } else {
        let t = s.insert(k, x);
        assert forall|i: int, j: int| 0 <= i < j < t.len() implies t[i].0 <= t[j].0 by {
            if j < k {
            } else if j == k {
            } else if i < k {
                assert(s[i].0 <= x.0);
                if k < s.len() {
                    assert(s[k].0 <= s[j - 1].0);
                }
            } else if i == k {
                assert(s[k].0 <= s[j - 1].0);
            } else {
            }
        }
    }
}

/// Sorting by line yields a sequence ordered by line.
pub proof fn lemma_sort_by_line_sorted<X>(v: Seq<(int, X)>)
    ensures
        lines_sorted(sort_by_line(v)),
    decreases v.len(),
{
    if v.len() > 0 {
        lemma_sort_by_line_sorted(v.drop_last());
        lemma_insert_sorted(sort_by_line(v.drop_last()), v.last(), 0);
    }
}

/// Sorting by line only rearranges: every element of the result is one of `v`.
/// Sorting by line is a permutation: it keeps every element as often as it occurs.
pub proof fn lemma_sort_by_line_multiset<X>(v: Seq<(int, X)>)
    ensures
        sort_by_line(v).to_multiset() == v.to_multiset(),
    decreases v.len(),
{
    if v.len() > 0 {
        let p = v.drop_last();
        lemma_sort_by_line_multiset(p);
        lemma_sort_by_line_len(p);
        let s = sort_by_line(p);
        let k = first_after(s, v.last().0, 0);
        lemma_first_after(s, v.last().0, 0);
        vstd::seq_lib::to_multiset_insert(s, k, v.last());
        vstd::seq_lib::to_multiset_build(p, v.last());
        assert(p.push(v.last()) =~= v);
        assert(sort_by_line(v) == s.insert(k, v.last()));
        assert(sort_by_line(v).to_multiset() =~= v.to_multiset());
    } else {
        assert(v =~= Seq::<(int, X)>::empty());
        assert(sort_by_line(v) =~= Seq::<(int, X)>::empty());
    }
}

pub proof fn lemma_sort_by_line_from<X>(v: Seq<(int, X)>)
    ensures
        forall|i: int| 0 <= i < sort_by_line(v).len() ==> v.contains(#[trigger] sort_by_line(v)[i]),
    decreases v.len(),
{
    lemma_sort_by_line_len(v);
    if v.len() > 0 {
        let p = v.drop_last();
        lemma_sort_by_line_from(p);
        let s = sort_by_line(p);
        lemma_sort_by_line_len(p);
        let k = first_after(s, v.last().0, 0);
        lemma_first_after(s, v.last().0, 0);
        assert forall|i: int| 0 <= i < sort_by_line(v).len() implies v.contains(#[trigger] sort_by_line(v)[i]) by {
            let r = sort_by_line(v);
            assert(r == s.insert(k, v.last()));
            if i < k {
                assert(r[i] == s[i]);
                assert(p.contains(s[i]));
                let j = choose|j: int| 0 <= j < p.len() && p[j] == s[i];
                assert(v[j] == p[j]);
            } else if i == k {
                assert(r[i] == v[v.len() - 1]);
            } else {
                assert(r[i] == s[i - 1]);
                assert(p.contains(s[i - 1]));
                let j = choose|j: int| 0 <= j < p.len() && p[j] == s[i - 1];
                assert(v[j] == p[j]);
            }
        }
    }
}

/// Whether the word `w` is one of `ws`.
pub fn contains_word(ws: &Vec<Vec<char>>, w: &Vec<char>) -> (r: bool)
    ensures
        r == seqs_of(ws@).contains(w@),
{
    let mut k: usize = 0;
    while k < ws.len()
        invariant
            k <= ws.len(),
            forall|j: int| 0 <= j < k ==> ws@[j]@ != w@,
        decreases ws.len() - k,
    {
        if vec_eq(&ws[k], w) {
            assert(seqs_of(ws@)[k as int] == w@);
            return true;
        }
        k = k + 1;
    }
    assert(!seqs_of(ws@).contains(w@)) by {
        if seqs_of(ws@).contains(w@) {
            let j = choose|j: int| 0 <= j < seqs_of(ws@).len() && seqs_of(ws@)[j] == w@;
            assert(ws@[j]@ == w@);
        }
    }
    false
}

// ---------------------------------------------------------------------------
// Inline code spans (`` `[^`]*` `` removed) and string order.

/// `s[i..]` with every backtick-delimited span removed, leftmost first.
pub open spec fn drop_code_from(s: Seq<char>, i: int) -> Seq<char>
    decreases s.len() - i,
{
    if i < 0 || i >= s.len() {
        Seq::empty()
    } else if s[i] == '`' && find_from(s, seq!['`'], i + 1) is Some {
        let q = find_from(s, seq!['`'], i + 1)->0;
        proof {
            lemma_find_from(s, seq!['`'], i + 1);
        }
        drop_code_from(s, q + 1)
    } else {
        seq![s[i]] + drop_code_from(s, i + 1)
    }
}

/// `s` without its inline code spans.
pub open spec fn drop_code(s: Seq<char>) -> Seq<char> {
    drop_code_from(s, 0)
}

/// Computes `drop_code`.
pub fn drop_code_exec(s: &Vec<char>) -> (r: Vec<char>)
    ensures
        r@ == drop_code(s@),
{
    let tick = vec!['`'];
    assert(tick@ =~= seq!['`']);
    let mut out: Vec<char> = Vec::new();
    let mut i: usize = 0;
    while i < s.len()
        invariant
            i <= s.len(),
            tick@ == seq!['`'],
            drop_code(s@) == out@ + drop_code_from(s@, i as int),
        decreases s.len() - i,
    {
        proof {
            lemma_find_from(s@, seq!['`'], i + 1);
        }
        if s[i] == '`' {
            match find(s, &tick, i + 1) {
                Some(q) => {
                    i = q + 1;
                    continue;
                },
                None => {},
            }
        }
        let ghost before = out@;
        out.push(s[i]);
        assert(out@ + drop_code_from(s@, i + 1) =~= before + drop_code_from(s@, i as int));
        i = i + 1;
    }
    assert(out@ + drop_code_from(s@, i as int) =~= out@);
    out
}

/// `a` sorts strictly before `b`, character by character (the order of `str`).
pub open spec fn seq_lt(a: Seq<char>, b: Seq<char>) -> bool
    decreases a.len(),
{
    if a.len() == 0 {
        b.len() > 0
    } else if b.len() == 0 {
        false
    } else if a[0] != b[0] {
        a[0] < b[0]
    } else {
        seq_lt(a.drop_first(), b.drop_first())
    }
}

/// Decides `seq_lt`.
pub fn seq_less(a: &Vec<char>, b: &Vec<char>) -> (r: bool)
    ensures
        r == seq_lt(a@, b@),
{
    let mut k: usize = 0;
    assert(a@.subrange(0, a.len() as int) =~= a@);
    assert(b@.subrange(0, b.len() as int) =~= b@);
    while k < a.len() && k < b.len() && a[k] == b[k]
        invariant
            k <= a.len(),
            k <= b.len(),
            seq_lt(a@, b@) == seq_lt(a@.subrange(k as int, a.len() as int), b@.subrange(k as int, b.len() as int)),
        decreases a.len() - k,
    {
        assert(a@.subrange(k as int, a.len() as int).drop_first() =~= a@.subrange(k + 1, a.len() as int));
        assert(b@.subrange(k as int, b.len() as int).drop_first() =~= b@.subrange(k + 1, b.len() as int));
        k = k + 1;
    }
    if k == a.len() {
        k < b.len()
    } else if k == b.len() {
        false
    } else {
        a[k] < b[k]
    }
}

pub proof fn lemma_seq_lt_irreflexive(a: Seq<char>)
    ensures
        !seq_lt(a, a),
    decreases a.len(),
{
    if a.len() > 0 {
        lemma_seq_lt_irreflexive(a.drop_first());
    }
}

pub proof fn lemma_seq_lt_total(a: Seq<char>, b: Seq<char>)
    ensures
        seq_lt(a, b) || seq_lt(b, a) || a == b,
    decreases a.len(),
{
    if a.len() > 0 && b.len() > 0 {
        if a[0] == b[0] {
            lemma_seq_lt_total(a.drop_first(), b.drop_first());
            if a.drop_first() == b.drop_first() {
                assert(a =~= seq![a[0]] + a.drop_first());
                assert(b =~= seq![b[0]] + b.drop_first());
            }
        }
    } else if a.len() == 0 && b.len() == 0 {
        assert(a =~= b);
    }
}

pub proof fn lemma_seq_lt_trans(a: Seq<char>, b: Seq<char>, c: Seq<char>)
    requires
        seq_lt(a, b),
        seq_lt(b, c),
    ensures
        seq_lt(a, c),
    decreases a.len(),
{
    if a.len() > 0 && b.len() > 0 && c.len() > 0 {
        if a[0] == b[0] && b[0] == c[0] {
            lemma_seq_lt_trans(a.drop_first(), b.drop_first(), c.drop_first());
        }
    }
}

pub proof fn lemma_seq_lt_asym(a: Seq<char>, b: Seq<char>)
    requires
        seq_lt(a, b),
    ensures
        !seq_lt(b, a),
    decreases a.len(),
{
    if a.len() > 0 && b.len() > 0 && a[0] == b[0] {
        lemma_seq_lt_asym(a.drop_first(), b.drop_first());
    }
}

} // verus!

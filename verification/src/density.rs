// density.rs — information density of prose units. A unit of sixty
// characters or more (mostly Japanese) whose zlib-compressed size is under
// 11 bits per character is repetitive; two units of forty characters or more
// whose character-bigram profiles have cosine similarity 0.65 or more are
// near-duplicates (the later one is reported). Both advisory.
use vstd::prelude::*;

use std::io::Write;

use crate::numfmt::{fixed, root_round};
use crate::prose::{prose_units, prose_units_view, spec_prose_units, UnitV};
use crate::text::{chars_of, dec, first_after, lemma_sort_by_line_sorted, lines_sorted, push_dec_str, sort_by_line};
use crate::unicode::{is_white_space, white_space};
use crate::wide::wv;
use crate::double::{
    f_den, f_lt, f_lt_exec, f_num, fdiv, fdiv_exec, fmt_fixed, nearest, nearest_exec, of_int, push_fmt_fixed, two_to, F64V,
};

verus! {

/// The length in bytes of the zlib stream that flate2's `ZlibEncoder` at
/// `Compression::best()` writes for the UTF-8 encoding of `text`.
pub uninterp spec fn zlib_len(text: Seq<char>) -> nat;

/// Compresses the UTF-8 bytes of `s` with flate2 (`ZlibEncoder::new(Vec::new(),
/// Compression::best())`, `write_all`, `finish`) and returns the length of the
/// compressed stream: `zlib_len` of `s`. Writing into a `Vec` cannot fail.
#[verifier::external_body]
fn compressed_len(s: &str) -> (n: usize)
    ensures
        n == zlib_len(s@),
{
    let mut enc = flate2::write::ZlibEncoder::new(Vec::new(), flate2::Compression::best());
    enc.write_all(s.as_bytes()).expect("in-memory deflate");
    enc.finish().expect("in-memory deflate").len()
}

/// A low-density or near-duplicate unit.
pub struct Finding {
    pub line: usize,
    pub rule: &'static str,
    pub msg: String,
}

/// A finding's model: line, then rule and message.
pub type FindV = (int, (Seq<char>, Seq<char>));

pub open spec fn find_view(f: Finding) -> FindV {
    (f.line as int, (f.rule@, f.msg@))
}

pub open spec fn finds_view(v: Seq<Finding>) -> Seq<FindV> {
    Seq::new(v.len(), |i: int| find_view(v[i]))
}

/// The number of ASCII characters.
pub open spec fn ascii_count(s: Seq<char>) -> nat
    decreases s.len(),
{
    if s.len() == 0 {
        0
    } else {
        ascii_count(s.drop_last()) + if (s.last() as u32) < 128 {
            1nat
        } else {
            0nat
        }
    }
}

/// The double nearest 0.15: `5404319552844595 · 2^-55`.
pub open spec fn share_cap() -> F64V {
    (5404319552844595, -55)
}

/// The share of ASCII characters, `ascii as f64 / n as f64`.
pub open spec fn ascii_share(ascii: nat, n: nat) -> F64V {
    fdiv(of_int(ascii), of_int(n))
}

/// Bits per character, `(8·z) as f64 / n as f64`.
pub open spec fn bits_per_char(z: nat, n: nat) -> F64V {
    fdiv(of_int(8 * z), of_int(n))
}

pub open spec fn low_msg(bpc: F64V) -> Seq<char> {
    "情報密度が低い（"@ + fmt_fixed(bpc, 1) + " bits/字 < 11）— 反復・定型の疑い。中身を足すか削る"@
}

/// The low-density finding of a unit on `line` of `n` characters, `ascii` of
/// them ASCII, whose compressed size is `z` bytes: one where the unit has 60
/// characters or more, an ASCII share of at most 0.15, and under 11 bits per
/// character (ratios computed in binary64, as `f64` divides them).
pub open spec fn low_finding(line: int, n: nat, ascii: nat, z: nat) -> Seq<FindV> {
    if n < 60 || f_lt(share_cap(), ascii_share(ascii, n)) {
        Seq::empty()
    } else {
        let bpc = bits_per_char(z, n);
        if f_lt(bpc, (11, 0)) {
            seq![(line, ("low-information-density"@, low_msg(bpc)))]
        } else {
            Seq::empty()
        }
    }
}

/// A unit's low-density finding, measured on its own compressed size.
pub open spec fn low_density(u: UnitV) -> Seq<FindV> {
    low_finding(u.0, u.1.len(), ascii_count(u.1), zlib_len(u.1))
}

pub open spec fn lows(us: Seq<UnitV>, k: int) -> Seq<FindV>
    decreases k,
{
    if k <= 0 || k > us.len() {
        Seq::empty()
    } else {
        lows(us, k - 1) + low_density(us[k - 1])
    }
}

/// The characters of `s` that are not White_Space.
pub open spec fn non_ws(s: Seq<char>) -> Seq<char>
    decreases s.len(),
{
    if s.len() == 0 {
        Seq::empty()
    } else {
        non_ws(s.drop_last()) + if is_white_space(s.last()) {
            Seq::empty()
        } else {
            seq![s.last()]
        }
    }
}

/// The character bigrams of `s`, ignoring White_Space.
pub open spec fn bigrams(s: Seq<char>) -> Seq<(char, char)> {
    let cs = non_ws(s);
    Seq::new(if cs.len() >= 1 { (cs.len() - 1) as nat } else { 0 }, |i: int| (cs[i], cs[i + 1]))
}

/// How often `x` occurs in `b`.
pub open spec fn occ(b: Seq<(char, char)>, x: (char, char)) -> nat
    decreases b.len(),
{
    if b.len() == 0 {
        0
    } else {
        occ(b.drop_last(), x) + if b.last() == x {
            1nat
        } else {
            0nat
        }
    }
}

/// The dot product of two bigram profiles: `sum over a of occ(b, .)`.
pub open spec fn dot(a: Seq<(char, char)>, b: Seq<(char, char)>) -> nat
    decreases a.len(),
{
    if a.len() == 0 {
        0
    } else {
        dot(a.drop_last(), b) + occ(b, a.last())
    }
}

pub open spec fn dup_msg(first: int, d: nat, na: nat, nb: nat) -> Seq<char> {
    "L"@ + dec(first as nat) + " とほぼ同内容（類似 "@ + fixed(root_round(d * d, na * nb, 2), 2)
        + "）— 水増しか貼り直し。片方へ集約する"@
}

/// Units `a` (earlier) and `b` of 40 characters or more whose bigram cosine is 0.65 or more.
pub open spec fn dup_pair(a: UnitV, b: UnitV) -> Seq<FindV> {
    if a.1.len() >= 40 && b.1.len() >= 40 {
        let ba = bigrams(a.1);
        let bb = bigrams(b.1);
        let na = dot(ba, ba);
        let nb = dot(bb, bb);
        let d = dot(ba, bb);
        if na > 0 && nb > 0 && 400 * d * d >= 169 * na * nb {
            seq![(b.0, ("near-duplicate"@, dup_msg(a.0, d, na, nb)))]
        } else {
            Seq::empty()
        }
    } else {
        Seq::empty()
    }
}

/// The pairs `(i, j)` with `j` in `i+1..k`.
pub open spec fn dups_of(us: Seq<UnitV>, i: int, k: int) -> Seq<FindV>
    decreases k,
{
    if k <= 0 || i < 0 || k <= i + 1 || k > us.len() {
        Seq::empty()
    } else {
        dups_of(us, i, k - 1) + dup_pair(us[i], us[k - 1])
    }
}

pub open spec fn dups(us: Seq<UnitV>, i: int) -> Seq<FindV>
    decreases i,
{
    if i <= 0 || i > us.len() {
        Seq::empty()
    } else {
        dups(us, i - 1) + dups_of(us, i - 1, us.len() as int)
    }
}

/// Every low-density and near-duplicate finding of a document, stably ordered by line.
pub open spec fn spec_scan(text: Seq<char>) -> Seq<FindV> {
    let us = spec_prose_units(text);
    sort_by_line(lows(us, us.len() as int) + dups(us, us.len() as int))
}

fn ascii_count_exec(s: &Vec<char>) -> (n: usize)
    ensures
        n == ascii_count(s@),
{
    let mut n: usize = 0;
    let mut i: usize = 0;
    while i < s.len()
        invariant
            i <= s.len(),
            n <= i,
            n == ascii_count(s@.take(i as int)),
        decreases s.len() - i,
    {
        proof {
            assert(s@.take(i + 1).drop_last() =~= s@.take(i as int));
        }
        if (s[i] as u32) < 128 {
            n = n + 1;
        }
        i = i + 1;
    }
    assert(s@.take(s.len() as int) =~= s@);
    n
}

pub proof fn lemma_non_ws_len(s: Seq<char>)
    ensures
        non_ws(s).len() <= s.len(),
    decreases s.len(),
{
    if s.len() > 0 {
        lemma_non_ws_len(s.drop_last());
    }
}

fn bigrams_exec(s: &Vec<char>) -> (r: Vec<(char, char)>)
    ensures
        r@ == bigrams(s@),
        r.len() <= s.len(),
{
    proof {
        lemma_non_ws_len(s@);
    }
    let mut cs: Vec<char> = Vec::new();
    let mut i: usize = 0;
    while i < s.len()
        invariant
            i <= s.len(),
            cs@ == non_ws(s@.take(i as int)),
        decreases s.len() - i,
    {
        proof {
            assert(s@.take(i + 1).drop_last() =~= s@.take(i as int));
        }
        let ghost c0 = cs@;
        if !white_space(s[i]) {
            cs.push(s[i]);
        }
        i = i + 1;
        assert(cs@ =~= non_ws(s@.take(i as int)));
    }
    assert(s@.take(s.len() as int) =~= s@);
    let mut r: Vec<(char, char)> = Vec::new();
    if cs.len() >= 1 {
        let mut k: usize = 0;
        while k + 1 < cs.len()
            invariant
                k + 1 <= cs.len(),
                cs@ == non_ws(s@),
                r@ == bigrams(s@).take(k as int),
            decreases cs.len() - k,
        {
            r.push((cs[k], cs[k + 1]));
            k = k + 1;
            assert(r@ =~= bigrams(s@).take(k as int));
        }
        assert(bigrams(s@).take(k as int) =~= bigrams(s@));
    } else {
        assert(r@ =~= bigrams(s@));
    }
    r
}

pub proof fn lemma_occ_le(b: Seq<(char, char)>, x: (char, char))
    ensures
        occ(b, x) <= b.len(),
    decreases b.len(),
{
    if b.len() > 0 {
        lemma_occ_le(b.drop_last(), x);
    }
}

pub proof fn lemma_dot_le(a: Seq<(char, char)>, b: Seq<(char, char)>)
    ensures
        dot(a, b) <= a.len() * b.len(),
    decreases a.len(),
{
    if a.len() > 0 {
        lemma_dot_le(a.drop_last(), b);
        lemma_occ_le(b, a.last());
        assert(a.drop_last().len() * b.len() + b.len() == a.len() * b.len()) by (nonlinear_arith)
            requires
                a.drop_last().len() + 1 == a.len(),
        ;
    }
}

/// Something that occurs in `b` occurs at least once.
proof fn lemma_occ_pos(b: Seq<(char, char)>, x: (char, char), i: int)
    requires
        0 <= i < b.len(),
        b[i] == x,
    ensures
        occ(b, x) >= 1,
    decreases b.len(),
{
    if i < b.len() - 1 {
        lemma_occ_pos(b.drop_last(), x, i);
    }
}

/// Every bigram of `a` that occurs in `b` adds one at least.
proof fn lemma_dot_ge(a: Seq<(char, char)>, b: Seq<(char, char)>)
    requires
        forall|i: int| 0 <= i < a.len() ==> b.contains(#[trigger] a[i]),
    ensures
        dot(a, b) >= a.len(),
    decreases a.len(),
{
    if a.len() > 0 {
        let p = a.drop_last();
        assert forall|i: int| 0 <= i < p.len() implies b.contains(#[trigger] p[i]) by {
            assert(p[i] == a[i]);
        }
        lemma_dot_ge(p, b);
        assert(b.contains(a[a.len() - 1]));
        let j = choose|j: int| 0 <= j < b.len() && b[j] == a.last();
        lemma_occ_pos(b, a.last(), j);
    }
}

/// A profile's square norm is at least its number of bigrams.
proof fn lemma_norm_ge(a: Seq<(char, char)>)
    ensures
        dot(a, a) >= a.len(),
{
    assert forall|i: int| 0 <= i < a.len() implies a.contains(#[trigger] a[i]) by {}
    lemma_dot_ge(a, a);
}

/// The similarity shown for a near-duplicate is bounded: with `d <= la·lb`,
/// `na >= la`, `nb >= lb` and `mx` the larger of `la`, `lb`,
/// `4 · 10^4 · d² <= (200·mx + 1)² · na · nb`.
proof fn lemma_dup_root_bound(d: nat, na: nat, nb: nat, la: nat, lb: nat, mx: nat)
    requires
        d <= la * lb,
        na >= la,
        nb >= lb,
        la <= mx,
        lb <= mx,
    ensures
        4 * (100 * 100) * (d * d) <= (2 * (100 * mx) + 1) * (2 * (100 * mx) + 1) * (na * nb),
{
    assert(d * d <= (la * lb) * (la * lb)) by (nonlinear_arith)
        requires
            d <= la * lb,
    ;
    assert((la * lb) * (la * lb) <= (la * lb) * (na * nb)) by (nonlinear_arith)
        requires
            na >= la,
            nb >= lb,
    ;
    assert(40000 * (la * lb) <= (2 * (100 * mx) + 1) * (2 * (100 * mx) + 1)) by (nonlinear_arith)
        requires
            la <= mx,
            lb <= mx,
    ;
    assert(40000 * (d * d) <= 40000 * ((la * lb) * (na * nb))) by (nonlinear_arith)
        requires
            d * d <= (la * lb) * (na * nb),
    ;
    assert(40000 * ((la * lb) * (na * nb)) <= (2 * (100 * mx) + 1) * (2 * (100 * mx) + 1) * (na * nb)) by (nonlinear_arith)
        requires
            40000 * (la * lb) <= (2 * (100 * mx) + 1) * (2 * (100 * mx) + 1),
    ;
}

fn occ_exec(b: &Vec<(char, char)>, x: (char, char)) -> (n: usize)
    ensures
        n == occ(b@, x),
        n <= b.len(),
{
    let mut n: usize = 0;
    let mut i: usize = 0;
    while i < b.len()
        invariant
            i <= b.len(),
            n <= i,
            n == occ(b@.take(i as int), x),
        decreases b.len() - i,
    {
        proof {
            assert(b@.take(i + 1).drop_last() =~= b@.take(i as int));
        }
        if b[i].0 == x.0 && b[i].1 == x.1 {
            n = n + 1;
        }
        i = i + 1;
    }
    assert(b@.take(b.len() as int) =~= b@);
    n
}

fn dot_exec(a: &Vec<(char, char)>, b: &Vec<(char, char)>) -> (n: u128)
    ensures
        n == dot(a@, b@),
        n <= a.len() * b.len(),
{
    let mut n: u128 = 0;
    let mut i: usize = 0;
    while i < a.len()
        invariant
            i <= a.len(),
            n == dot(a@.take(i as int), b@),
            n <= i * b.len(),
        decreases a.len() - i,
    {
        proof {
            assert(a@.take(i + 1).drop_last() =~= a@.take(i as int));
        }
        let o = occ_exec(b, a[i]);
        assert(n + o <= (i + 1) * b.len()) by (nonlinear_arith)
            requires
                n <= i * b.len(),
                o <= b.len(),
        ;
        assert((i + 1) * b.len() <= 0xffff_ffff_ffff_ffff * 0xffff_ffff_ffff_ffff) by (nonlinear_arith)
            requires
                i < a.len(),
                a.len() <= usize::MAX,
                b.len() <= usize::MAX,
                usize::MAX <= 0xffff_ffff_ffff_ffff,
        ;
        n = n + o as u128;
        i = i + 1;
    }
    assert(a@.take(a.len() as int) =~= a@);
    n
}

/// The finding that a unit on `line` of `n` characters, `ascii` of them
/// ASCII, gets when its UTF-8 bytes compress to `z` bytes: `None` unless the
/// unit has 60 characters or more, at most 15% ASCII, and under 11 bits per
/// character.
pub fn low_density_finding(line: usize, n: usize, ascii: usize, z: usize) -> (r: Option<Finding>)
    ensures
        match r {
            Some(f) => seq![find_view(f)] == low_finding(line as int, n as nat, ascii as nat, z as nat),
            None => low_finding(line as int, n as nat, ascii as nat, z as nat) =~= Seq::<FindV>::empty(),
        },
{
    if n < 60 || !ascii_share_ok(ascii, n) {
        return None;
    }
    let nd = nearest_exec(n as u128, 1);
    let b = nearest_exec((z as u128) * 8, 1);
    proof {
        lemma_int_double_bounds(n as nat, nd);
        lemma_int_double_bounds((z as nat) * 8, b);
        lemma_products_fit(b, nd);
    }
    let bpc = fdiv_exec(b, nd);
    if f_lt_exec(bpc, (11, 0)) {
        let mut m = String::new();
        m.append("情報密度が低い（");
        push_fmt_fixed(&mut m, bpc, 1);
        m.append(" bits/字 < 11）— 反復・定型の疑い。中身を足すか削る");
        let f = Finding { line, rule: "low-information-density", msg: m };
        assert(seq![find_view(f)] =~= low_finding(line as int, n as nat, ascii as nat, z as nat));
        Some(f)
    } else {
        None
    }
}

/// The bounds of an integer converted to a double, as `fdiv_exec` needs them.
pub(crate) proof fn lemma_int_double_bounds(v: nat, d: (u64, i64))
    requires
        v < 0x10_0000_0000_0000_0000,
        (d.0 as nat, d.1 as int) == of_int(v),
        v >= 1 ==> d.0 >= 1,
        f_num((d.0 as nat, d.1 as int)) <= 2 * v + 0x20_0000_0000_0000,
        d.1 < 0 ==> f_den((d.0 as nat, d.1 as int)) * v <= 0x20_0000_0000_0000,
    ensures
        f_num((d.0 as nat, d.1 as int)) < 0x40_0000_0000_0000_0000,
        f_den((d.0 as nat, d.1 as int)) <= 0x20_0000_0000_0000,
        v >= 1 ==> f_num((d.0 as nat, d.1 as int)) >= 1,
{
    let x = (d.0 as nat, d.1 as int);
    if d.1 < 0 {
        if v >= 1 {
            assert(f_den(x) <= f_den(x) * v) by (nonlinear_arith)
                requires
                    v >= 1,
            ;
        } else {
            assert(x == nearest(0, 1));
        }
    } else {
        crate::double::lemma_two_to_pos(d.1 as nat);
        if v >= 1 {
            assert(d.0 * two_to(d.1 as nat) >= 1) by (nonlinear_arith)
                requires
                    d.0 >= 1,
                    two_to(d.1 as nat) >= 1,
            ;
        }
    }
}

pub(crate) proof fn lemma_products_fit(x: (u64, i64), y: (u64, i64))
    requires
        f_num((x.0 as nat, x.1 as int)) < 0x40_0000_0000_0000_0000,
        f_den((x.0 as nat, x.1 as int)) <= 0x20_0000_0000_0000,
        f_num((y.0 as nat, y.1 as int)) < 0x40_0000_0000_0000_0000,
        f_den((y.0 as nat, y.1 as int)) <= 0x20_0000_0000_0000,
    ensures
        f_num((x.0 as nat, x.1 as int)) * f_den((y.0 as nat, y.1 as int)) < 0x1_0000_0000_0000_0000_0000_0000_0000_0000,
        f_den((x.0 as nat, x.1 as int)) * f_num((y.0 as nat, y.1 as int)) < 0x1_0000_0000_0000_0000_0000_0000_0000_0000,
{
    let a = f_num((x.0 as nat, x.1 as int));
    let b = f_den((y.0 as nat, y.1 as int));
    let c = f_den((x.0 as nat, x.1 as int));
    let d = f_num((y.0 as nat, y.1 as int));
    assert(a * b < 0x1_0000_0000_0000_0000_0000_0000_0000_0000) by (nonlinear_arith)
        requires
            a < 0x40_0000_0000_0000_0000,
            b <= 0x20_0000_0000_0000,
    ;
    assert(c * d < 0x1_0000_0000_0000_0000_0000_0000_0000_0000) by (nonlinear_arith)
        requires
            d < 0x40_0000_0000_0000_0000,
            c <= 0x20_0000_0000_0000,
    ;
}

/// Whether the ASCII share `ascii as f64 / n as f64` is at most 0.15.
fn ascii_share_ok(ascii: usize, n: usize) -> (r: bool)
    requires
        n >= 1,
    ensures
        r == !f_lt(share_cap(), ascii_share(ascii as nat, n as nat)),
{
    let nd = nearest_exec(n as u128, 1);
    let a = nearest_exec(ascii as u128, 1);
    proof {
        lemma_int_double_bounds(n as nat, nd);
        lemma_int_double_bounds(ascii as nat, a);
        lemma_products_fit(a, nd);
    }
    let q = fdiv_exec(a, nd);
    !f_lt_exec((5404319552844595, -55), q)
}

fn push_find(out: &mut Vec<Finding>, line: usize, rule: &'static str, msg: String)
    ensures
        finds_view(final(out)@) == finds_view(old(out)@).push((line as int, (rule@, msg@))),
{
    let ghost v0 = finds_view(out@);
    out.push(Finding { line, rule, msg });
    assert(finds_view(out@) =~= v0.push((line as int, (rule@, msg@))));
}

fn first_after_exec(v: &Vec<Finding>, line: usize) -> (j: usize)
    ensures
        j == first_after(finds_view(v@), line as int, 0),
        j <= v.len(),
{
    let ghost g = finds_view(v@);
    let mut j: usize = 0;
    while j < v.len() && v[j].line <= line
        invariant
            j <= v.len(),
            g == finds_view(v@),
            first_after(g, line as int, 0) == first_after(g, line as int, j as int),
        decreases v.len() - j,
    {
        j = j + 1;
    }
    j
}

fn sort_findings(v: Vec<Finding>) -> (r: Vec<Finding>)
    ensures
        finds_view(r@) == sort_by_line(finds_view(v@)),
{
    let ghost orig = finds_view(v@);
    let mut src = v;
    let mut out: Vec<Finding> = Vec::new();
    let ghost mut k: int = 0;
    assert(orig.take(0) =~= Seq::<FindV>::empty());
    assert(finds_view(out@) =~= Seq::<FindV>::empty());
    assert(finds_view(src@) =~= orig.subrange(0, orig.len() as int));
    while src.len() > 0
        invariant
            0 <= k <= orig.len(),
            src.len() == orig.len() - k,
            finds_view(src@) == orig.subrange(k, orig.len() as int),
            finds_view(out@) == sort_by_line(orig.take(k)),
        decreases src.len(),
    {
        let ghost s0 = src@;
        let ghost o0 = out@;
        let x = src.remove(0);
        assert(find_view(x) == orig[k]) by {
            assert(finds_view(s0)[0] == find_view(s0[0]));
        }
        assert(finds_view(src@) =~= orig.subrange(k + 1, orig.len() as int)) by {
            assert(src@ =~= s0.remove(0));
            assert forall|i: int| 0 <= i < src@.len() implies #[trigger] finds_view(src@)[i] == orig[k + 1 + i] by {
                assert(src@[i] == s0[i + 1]);
                assert(finds_view(s0)[i + 1] == orig.subrange(k, orig.len() as int)[i + 1]);
            }
        }
        let pos = first_after_exec(&out, x.line);
        out.insert(pos, x);
        proof {
            assert(out@ =~= o0.insert(pos as int, x));
            assert(finds_view(out@) =~= finds_view(o0).insert(pos as int, find_view(x)));
            assert(orig.take(k + 1).drop_last() =~= orig.take(k));
            assert(orig.take(k + 1).last() == orig[k]);
            k = k + 1;
        }
    }
    assert(orig.take(k) =~= orig);
    out
}

/// The repetitive and the near-duplicate prose units of a document, stably
/// ordered by line. Measured in exact arithmetic; the text is at most 2^24
/// characters so that the products of bigram counts stay exact.
pub fn scan(text: &str) -> (r: Vec<Finding>)
    requires
        text@.len() < usize::MAX,
    ensures
        finds_view(r@) == spec_scan(text@),
        lines_sorted(finds_view(r@)),
{
    let us = prose_units(text);
    let ghost g = spec_prose_units(text@);
    proof {
        crate::prose::lemma_prose_units_bound(text@);
    }
    let mut out: Vec<Finding> = Vec::new();
    let mut k: usize = 0;
    assert(finds_view(out@) =~= Seq::<FindV>::empty());
    while k < us.len()
        invariant
            k <= us.len(),
            g == prose_units_view(us@),
            text@.len() < usize::MAX,
            forall|j: int| 0 <= j < g.len() ==> (#[trigger] g[j]).1.len() <= text@.len(),
            finds_view(out@) == lows(g, k as int),
        decreases us.len() - k,
    {
        let u = &us[k];
        assert(g[k as int] == (u.line as int, u.text@, u.is_bullet));
        let t = chars_of(u.text.as_str());
        let n = t.len();
        let ghost o0 = finds_view(out@);
        if n >= 60 {
            let a = ascii_count_exec(&t);
            proof {
                crate::text::lemma_count_char_le(t@, ' ');
            }
            if ascii_share_ok(a, n) {
                let z = compressed_len(u.text.as_str());
                if let Some(f) = low_density_finding(u.line, n, a, z) {
                    out.push(f);
                }
                assert(finds_view(out@) =~= o0 + low_density(g[k as int]));
            } else {
                assert(finds_view(out@) =~= o0 + low_density(g[k as int]));
            }
        } else {
            assert(finds_view(out@) =~= o0 + low_density(g[k as int]));
        }
        k = k + 1;
    }
    let ghost lw = finds_view(out@);
    let mut i: usize = 0;
    assert(finds_view(out@) =~= lw + dups(g, 0));
    while i < us.len()
        invariant
            i <= us.len(),
            g == prose_units_view(us@),
            text@.len() < usize::MAX,
            forall|j: int| 0 <= j < g.len() ==> (#[trigger] g[j]).1.len() <= text@.len(),
            finds_view(out@) == lw + dups(g, i as int),
        decreases us.len() - i,
    {
        let ti = chars_of(us[i].text.as_str());
        let ghost d0 = finds_view(out@);
        let mut j: usize = i + 1;
        assert(finds_view(out@) =~= d0 + dups_of(g, i as int, j as int));
        while j < us.len()
            invariant
                i < us.len(),
                i + 1 <= j <= us.len(),
                g == prose_units_view(us@),
                ti@ == g[i as int].1,
                text@.len() < usize::MAX,
                forall|q: int| 0 <= q < g.len() ==> (#[trigger] g[q]).1.len() <= text@.len(),
                finds_view(out@) == d0 + dups_of(g, i as int, j as int),
            decreases us.len() - j,
        {
            let tj = chars_of(us[j].text.as_str());
            assert(tj@ == g[j as int].1);
            let ghost e0 = finds_view(out@);
            if ti.len() >= 40 && tj.len() >= 40 {
                let ba = bigrams_exec(&ti);
                let bb = bigrams_exec(&tj);
                let na = dot_exec(&ba, &ba);
                let nb = dot_exec(&bb, &bb);
                let d = dot_exec(&ba, &bb);
                let dd = crate::wide::product(d, d);
                let nn = crate::wide::product(na, nb);
                let lhs = crate::wide::mul_small(&dd, 400);
                let rhs = crate::wide::mul_small(&nn, 169);
                assert(wv(lhs@) == 400 * (d as int) * (d as int)) by (nonlinear_arith)
                    requires
                        wv(lhs@) == wv(dd@) * 400,
                        wv(dd@) == d * d,
                ;
                assert(wv(rhs@) == 169 * (na as int) * (nb as int)) by (nonlinear_arith)
                    requires
                        wv(rhs@) == wv(nn@) * 169,
                        wv(nn@) == na * nb,
                ;
                if na > 0 && nb > 0 && !crate::wide::lt(&lhs, &rhs) {
                    let la = ba.len();
                    let lb = bb.len();
                    let mx: usize = if la > lb {
                        la
                    } else {
                        lb
                    };
                    let jmax: u128 = 100 * (mx as u128);
                    proof {
                        lemma_dot_le(ba@, bb@);
                        lemma_norm_ge(ba@);
                        lemma_norm_ge(bb@);
                        crate::numfmt::lemma_pow10(2);
                        reveal_with_fuel(crate::numfmt::pow10, 3);
                        lemma_dup_root_bound(d as nat, na as nat, nb as nat, la as nat, lb as nat, mx as nat);
                        assert(na * nb > 0) by (nonlinear_arith)
                            requires
                                na > 0,
                                nb > 0,
                        ;
                    }
                    let mut m = String::new();
                    m.append("L");
                    push_dec_str(&mut m, us[i].line);
                    m.append(" とほぼ同内容（類似 ");
                    crate::numfmt::push_root_wide(&mut m, &dd, &nn, 2, jmax);
                    m.append("）— 水増しか貼り直し。片方へ集約する");
                    push_find(&mut out, us[j].line, "near-duplicate", m);
                    assert(finds_view(out@) =~= e0 + dup_pair(g[i as int], g[j as int]));
                } else {
                    assert(finds_view(out@) =~= e0 + dup_pair(g[i as int], g[j as int]));
                }
            } else {
                assert(finds_view(out@) =~= e0 + dup_pair(g[i as int], g[j as int]));
            }
            j = j + 1;
        }
        i = i + 1;
    }
    let r = sort_findings(out);
    proof {
        lemma_sort_by_line_sorted(lows(g, g.len() as int) + dups(g, g.len() as int));
    }
    r
}

} // verus!

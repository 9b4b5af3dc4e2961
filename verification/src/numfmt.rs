// numfmt.rs — fixed-point rendering of ratios (what `{:.p}` prints for an
// exact quotient): round to nearest, ties to even, then the digits.
use vstd::prelude::*;

use crate::text::{dec, digit, digit_char, push_vec_str};
use crate::wide::{div_small, eq, from_u128, lt, mul_small, mul_u128, sum, wv};

verus! {

pub open spec fn pow10(p: nat) -> nat
    decreases p,
{
    if p == 0 {
        1
    } else {
        10 * pow10((p - 1) as nat)
    }
}

/// `n / d` rounded to the nearest integer, ties to even.
pub open spec fn round_div(n: nat, d: nat) -> nat {
    let q = n / d;
    let r = n % d;
    if 2 * r > d {
        q + 1
    } else if 2 * r < d {
        q
    } else if q % 2 == 0 {
        q
    } else {
        q + 1
    }
}

/// `k` in exactly `p` digits, with leading zeros.
pub open spec fn pad(k: nat, p: nat) -> Seq<char>
    decreases p,
{
    if p == 0 {
        Seq::empty()
    } else {
        pad(k / 10, (p - 1) as nat).push(digit((k % 10) as int))
    }
}

/// The fixed-point number `k / 10^p` with `p` decimals.
pub open spec fn fixed(k: nat, p: nat) -> Seq<char> {
    dec(k / pow10(p)) + if p > 0 {
        seq!['.'] + pad(k % pow10(p), p)
    } else {
        Seq::empty()
    }
}

/// `n / d` with `p` decimals.
pub open spec fn ratio_fixed(n: nat, d: nat, p: nat) -> Seq<char> {
    fixed(round_div(n * pow10(p), d), p)
}

pub proof fn lemma_pow10(p: nat)
    ensures
        pow10(p) >= 1,
        p <= 3 ==> pow10(p) <= 1000,
    decreases p,
{
    if p > 0 {
        lemma_pow10((p - 1) as nat);
    }
    if p <= 3 {
        reveal_with_fuel(pow10, 4);
    }
}

pub(crate) fn pow10_exec(p: u32) -> (r: u128)
    requires
        p <= 3,
    ensures
        r == pow10(p as nat),
{
    let mut r: u128 = 1;
    let mut i: u32 = 0;
    while i < p
        invariant
            i <= p <= 3,
            r == pow10(i as nat),
            r <= 1000,
        decreases p - i,
    {
        proof {
            lemma_pow10(i as nat);
            lemma_pow10((i + 1) as nat);
        }
        r = r * 10;
        i = i + 1;
    }
    r
}

pub fn push_dec_u128(out: &mut Vec<char>, n: u128)
    ensures
        final(out)@ == old(out)@ + dec(n as nat),
    decreases n,
{
    if n < 10 {
        out.push(digit_char(n as usize));
        assert(out@ =~= old(out)@ + dec(n as nat));
    } else {
        push_dec_u128(out, n / 10);
        out.push(digit_char((n % 10) as usize));
        assert(out@ =~= old(out)@ + dec(n as nat));
    }
}

fn push_pad(out: &mut Vec<char>, k: u128, p: u32)
    ensures
        final(out)@ == old(out)@ + pad(k as nat, p as nat),
    decreases p,
{
    if p > 0 {
        push_pad(out, k / 10, p - 1);
        out.push(digit_char((k % 10) as usize));
        assert(out@ =~= old(out)@ + pad(k as nat, p as nat));
    } else {
        assert(out@ =~= old(out)@ + pad(k as nat, p as nat));
    }
}

/// Appends `n / d` with `p` decimals (ties to even).
pub fn push_ratio(s: &mut String, n: u128, d: u128, p: u32)
    requires
        d > 0,
        d <= 0x10_0000_0000_0000_0000_0000_0000u128,
        p <= 3,
        n <= 0x10_0000_0000_0000_0000_0000_0000u128,
    ensures
        final(s)@ == old(s)@ + ratio_fixed(n as nat, d as nat, p as nat),
{
    let m = pow10_exec(p);
    proof {
        lemma_pow10(p as nat);
    }
    assert(n * m <= 0x10_0000_0000_0000_0000_0000_0000u128 * 1000) by (nonlinear_arith)
        requires
            m <= 1000,
            n <= 0x10_0000_0000_0000_0000_0000_0000u128,
    ;
    let x: u128 = n * m;
    let q = x / d;
    let r = x % d;
    let k: u128 = if 2 * r > d {
        q + 1
    } else if 2 * r < d {
        q
    } else if q % 2 == 0 {
        q
    } else {
        q + 1
    };
    assert(k == round_div(n as nat * pow10(p as nat), d as nat));
    let mut v: Vec<char> = Vec::new();
    push_dec_u128(&mut v, k / m);
    if p > 0 {
        v.push('.');
        push_pad(&mut v, k % m, p);
    }
    assert(v@ =~= fixed(k as nat, p as nat));
    push_vec_str(s, &v);
}

/// Searching upward from `j`: the last `j` whose lower rounding boundary
/// `(j - 1/2)` lies strictly below `sqrt(x / w) * 10^p`, compared as
/// `(2j + 1)^2 w < 4 m x` with `m = 10^(2p)`.
pub open spec fn root_search(x: nat, w: nat, m: nat, j: nat, fuel: nat) -> nat
    decreases fuel,
{
    if fuel == 0 {
        j
    } else if (2 * j + 1) * (2 * j + 1) * w < 4 * m * x {
        root_search(x, w, m, j + 1, (fuel - 1) as nat)
    } else {
        j
    }
}

/// `sqrt(x / w) * 10^p` rounded to the nearest integer, ties to even (`w > 0`).
pub open spec fn root_round(x: nat, w: nat, p: nat) -> nat {
    let m = pow10(p) * pow10(p);
    let j = root_search(x, w, m, 0, 4 * m * x + 1);
    if (2 * j + 1) * (2 * j + 1) * w == 4 * m * x && j % 2 == 1 {
        j + 1
    } else {
        j
    }
}

/// Appends the decimal rendering of `n`.
pub fn push_dec_u128_str(s: &mut String, n: u128)
    ensures
        final(s)@ == old(s)@ + dec(n as nat),
{
    let mut v: Vec<char> = Vec::new();
    push_dec_u128(&mut v, n);
    assert(v@ =~= dec(n as nat));
    push_vec_str(s, &v);
}


proof fn lemma_div_mod_of(n: nat, q: nat, r: nat, d: nat)
    requires
        d > 0,
        n == q * d + r,
        r < d,
    ensures
        n / d == q,
        n % d == r,
{
    vstd::arithmetic::div_mod::lemma_fundamental_div_mod_converse(n as int, d as int, q as int, r as int);
}

/// Appends the decimal rendering of the wide number `n`.
pub fn push_dec_wide(out: &mut Vec<char>, n: &Vec<u64>)
    ensures
        final(out)@ == old(out)@ + dec(wv(n@)),
    decreases wv(n@),
{
    let (q, r) = div_small(n, 10);
    let zero: Vec<u64> = Vec::new();
    proof {
        lemma_div_mod_of(wv(n@), wv(q@), r as nat, 10);
    }
    if eq(&q, &zero) {
        assert(wv(n@) == r);
        out.push(digit_char(r as usize));
        assert(out@ =~= old(out)@ + dec(wv(n@)));
    } else {
        assert(wv(zero@) == 0);
        push_dec_wide(out, &q);
        out.push(digit_char(r as usize));
        assert(out@ =~= old(out)@ + dec(wv(n@)));
    }
}

/// Appends `sqrt(x / w)` with `p` decimals (ties to even), for wide `x` and
/// `w`, given a `jmax` with `4 · 10^(2p) · x <= (2·jmax + 1)^2 · w`.
pub fn push_root_wide(s: &mut String, x: &Vec<u64>, w: &Vec<u64>, p: u32, jmax: u128)
    requires
        wv(w@) > 0,
        p <= 2,
        jmax < 0x1_0000_0000_0000_0000_0000_0000,
        4 * (pow10(p as nat) * pow10(p as nat)) * wv(x@) <= (2 * jmax + 1) * (2 * jmax + 1) * wv(w@),
    ensures
        final(s)@ == old(s)@ + fixed(root_round(wv(x@), wv(w@), p as nat), p as nat),
{
    let pm = pow10_exec(p);
    proof {
        lemma_pow10(p as nat);
        reveal_with_fuel(pow10, 3);
    }
    assert(pm <= 100);
    assert(pm * pm <= 10000) by (nonlinear_arith)
        requires
            pm <= 100,
    ;
    let m: u128 = pm * pm;
    let lim = mul_small(x, (4 * m) as u64);
    let ghost xv = wv(x@);
    let ghost wvv = wv(w@);
    let ghost l = wv(lim@);
    assert(l == 4 * m * xv) by (nonlinear_arith)
        requires
            l == xv * ((4 * m) as u64),
            m <= 10000,
    ;
    let mut j: u128 = 0;
    let mut t: Vec<u64>;
    loop
        invariant
            l == wv(lim@),
            l == 4 * m * xv,
            xv == wv(x@),
            wvv == wv(w@),
            wvv > 0,
            m == pow10(p as nat) * pow10(p as nat),
            l <= (2 * jmax + 1) * (2 * jmax + 1) * wvv,
            jmax < 0x1_0000_0000_0000_0000_0000_0000,
            j <= jmax,
            j <= l,
            j == 0 || (2 * j - 1) * (2 * j - 1) * wvv < l,
            root_search(xv, wvv, m as nat, 0, (l + 1) as nat) == root_search(
                xv,
                wvv,
                m as nat,
                j as nat,
                (l + 1 - j) as nat,
            ),
        ensures
            wv(t@) == (2 * j + 1) * (2 * j + 1) * wvv,
            wv(t@) >= l,
            j <= jmax,
            root_search(xv, wvv, m as nat, 0, (l + 1) as nat) == j,
        decreases jmax - j,
    {
        let a: u128 = 2 * j + 1;
        let wa = mul_u128(w, a);
        t = mul_u128(&wa, a);
        assert(wv(t@) == (2 * j + 1) * (2 * j + 1) * wvv) by (nonlinear_arith)
            requires
                wv(t@) == wv(wa@) * a,
                wv(wa@) == wvv * a,
                a == 2 * j + 1,
        ;
        if !lt(&t, &lim) {
            break;
        }
        assert(j < jmax) by (nonlinear_arith)
            requires
                (2 * j + 1) * (2 * j + 1) * wvv < l,
                l <= (2 * jmax + 1) * (2 * jmax + 1) * wvv,
                wvv > 0,
                j >= 0,
                jmax >= 0,
        ;
        assert(j + 1 <= l) by (nonlinear_arith)
            requires
                (2 * j + 1) * (2 * j + 1) * wvv < l,
                wvv > 0,
                j >= 0,
        ;
        j = j + 1;
    }
    let k: u128 = if eq(&t, &lim) && j % 2 == 1 {
        j + 1
    } else {
        j
    };
    assert(k == root_round(xv, wvv, p as nat));
    let mut v: Vec<char> = Vec::new();
    push_dec_u128(&mut v, k / pm);
    if p > 0 {
        v.push('.');
        push_pad(&mut v, k % pm, p);
    }
    assert(v@ =~= fixed(k as nat, p as nat));
    push_vec_str(s, &v);
}


/// Appends `k / 10^p` with `p` decimals, for a wide `k`.
pub fn push_fixed_wide(s: &mut String, k: &Vec<u64>, p: u32)
    requires
        p <= 3,
    ensures
        final(s)@ == old(s)@ + fixed(wv(k@), p as nat),
{
    let m = pow10_exec(p);
    proof {
        lemma_pow10(p as nat);
    }
    let (hi, lo) = div_small(k, m as u64);
    proof {
        lemma_div_mod_of(wv(k@), wv(hi@), lo as nat, m as nat);
    }
    let mut v: Vec<char> = Vec::new();
    push_dec_wide(&mut v, &hi);
    if p > 0 {
        v.push('.');
        push_pad(&mut v, lo as u128, p);
    }
    assert(v@ =~= fixed(wv(k@), p as nat));
    push_vec_str(s, &v);
}

} // verus!

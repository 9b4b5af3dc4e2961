// double.rs — IEEE 754 binary64 arithmetic on non-negative values, modelled
// exactly: a double is `m · 2^e`, every operation rounds its exact rational
// result to the nearest double (ties to even), and `{:.p}` prints the exact
// decimal value of the double rounded half to even. The thresholds and
// figures that the detectors compute in floating point follow this model.
use vstd::prelude::*;

use crate::numfmt::{fixed, pow10, push_fixed_wide, round_div};
use crate::wide::{difference, eq, from_u128, lt, mul_small, mul_u128, wv};

verus! {

pub open spec fn two_to(k: nat) -> nat
    decreases k,
{
    if k == 0 {
        1
    } else {
        2 * two_to((k - 1) as nat)
    }
}

proof fn lemma_two_to_add(a: nat, b: nat)
    ensures
        two_to(a + b) == two_to(a) * two_to(b),
    decreases b,
{
    if b > 0 {
        lemma_two_to_add(a, (b - 1) as nat);
        assert((a + b - 1) as nat == a + ((b - 1) as nat));
        assert(two_to(a + b) == 2 * two_to((a + b - 1) as nat));
        assert(two_to(a) * two_to(b) == two_to(a) * (2 * two_to((b - 1) as nat)));
        assert(two_to(a) * (2 * two_to((b - 1) as nat)) == 2 * (two_to(a) * two_to((b - 1) as nat))) by (nonlinear_arith);
        assert(two_to(a + b) == 2 * two_to(a + ((b - 1) as nat)));
    } else {
        assert(two_to(0) == 1);
        assert(a + b == a);
        assert(two_to(a) * 1 == two_to(a));
    }
}

proof fn lemma_two_to_mono(a: nat, b: nat)
    requires
        a < b,
    ensures
        two_to(a) < two_to(b),
    decreases b,
{
    lemma_two_to_pos(a);
    if b > a + 1 {
        lemma_two_to_mono(a, (b - 1) as nat);
    }
}

pub proof fn lemma_two_to_pos(a: nat)
    ensures
        two_to(a) >= 1,
    decreases a,
{
    if a > 0 {
        lemma_two_to_pos((a - 1) as nat);
    }
}

proof fn lemma_two_to_consts()
    ensures
        two_to(52) == 0x10_0000_0000_0000,
        two_to(53) == 0x20_0000_0000_0000,
        two_to(64) == 0x1_0000_0000_0000_0000,
        two_to(128) == 0x1_0000_0000_0000_0000_0000_0000_0000_0000,
        two_to(180) == 0x10_0000_0000_0000 * 0x1_0000_0000_0000_0000_0000_0000_0000_0000,
        two_to(200) == 0x1_0000_0000_0000_0000_0000_0000_0000_0000 * 0x1_0000_0000_0000_0000 * 0x100,
        two_to(252) == 0x10_0000_0000_0000 * two_to(200),
{
    reveal_with_fuel(two_to, 3);
    assert(two_to(2) == 4);
    lemma_two_to_add(2, 2);
    assert(two_to(4) == 16);
    lemma_two_to_add(4, 4);
    assert(two_to(8) == 256);
    lemma_two_to_add(8, 8);
    assert(two_to(16) == 0x1_0000);
    lemma_two_to_add(16, 16);
    assert(two_to(32) == 0x1_0000_0000);
    lemma_two_to_add(32, 32);
    assert(two_to(64) == 0x1_0000_0000_0000_0000);
    lemma_two_to_add(32, 16);
    assert(two_to(48) == 0x1_0000_0000_0000);
    lemma_two_to_add(48, 4);
    assert(two_to(52) == 0x10_0000_0000_0000);
    lemma_two_to_add(52, 1);
    assert(two_to(1) == 2);
    assert(two_to(53) == 0x20_0000_0000_0000);
    lemma_two_to_add(64, 64);
    lemma_two_to_add(128, 52);
    lemma_two_to_add(128, 64);
    lemma_two_to_add(192, 8);
    lemma_two_to_add(52, 200);
}

/// A non-negative double `m · 2^e`.
pub type F64V = (nat, int);

/// The numerator of a double's value.
pub open spec fn f_num(x: F64V) -> nat {
    if x.1 >= 0 {
        x.0 * two_to(x.1 as nat)
    } else {
        x.0
    }
}

/// The denominator of a double's value.
pub open spec fn f_den(x: F64V) -> nat {
    if x.1 >= 0 {
        1
    } else {
        two_to((-x.1) as nat)
    }
}

/// The least `k' >= k` with `num · 2^k' >= 2^52 · den`.
pub open spec fn down_from(num: nat, den: nat, k: nat, fuel: nat) -> nat
    decreases fuel,
{
    if fuel == 0 || num * two_to(k) >= 0x10_0000_0000_0000 * den {
        k
    } else {
        down_from(num, den, k + 1, (fuel - 1) as nat)
    }
}

/// The least `k' >= k` with `num < 2^53 · den · 2^k'`.
pub open spec fn up_from(num: nat, den: nat, k: nat, fuel: nat) -> nat
    decreases fuel,
{
    if fuel == 0 || num < 0x20_0000_0000_0000 * den * two_to(k) {
        k
    } else {
        up_from(num, den, k + 1, (fuel - 1) as nat)
    }
}

/// The double nearest to `num / den` (ties to even), for `num, den < 2^128`:
/// its significand has 53 bits (`2^52 <= m <= 2^53`).
pub open spec fn nearest(num: nat, den: nat) -> F64V {
    if num == 0 {
        (0, 0)
    } else if num < 0x10_0000_0000_0000 * den {
        let k = down_from(num, den, 0, 256);
        (round_div(num * two_to(k), den), -(k as int))
    } else {
        let k = up_from(num, den, 0, 256);
        (round_div(num, den * two_to(k)), k as int)
    }
}

/// `n as f64`.
pub open spec fn of_int(n: nat) -> F64V {
    nearest(n, 1)
}

/// Every double has a positive denominator.
pub proof fn lemma_f_den_pos(x: F64V)
    ensures
        f_den(x) >= 1,
{
    if x.1 < 0 {
        lemma_two_to_pos((-x.1) as nat);
    }
}

/// The double that a `(mantissa, exponent)` pair of machine integers holds.
pub open spec fn fv(x: (u64, i64)) -> F64V {
    (x.0 as nat, x.1 as int)
}

/// `x / y` in binary64.
pub open spec fn fdiv(x: F64V, y: F64V) -> F64V {
    nearest(f_num(x) * f_den(y), f_den(x) * f_num(y))
}

/// `x < y` on the values.
pub open spec fn f_lt(x: F64V, y: F64V) -> bool {
    f_num(x) * f_den(y) < f_num(y) * f_den(x)
}

/// `format!("{:.p}", x)`: the exact value rounded half to even to `p` decimals.
pub open spec fn fmt_fixed(x: F64V, p: nat) -> Seq<char> {
    fixed(round_div(f_num(x) * pow10(p), f_den(x)), p)
}

proof fn lemma_div_of(n: nat, q: nat, r: nat, d: nat)
    requires
        d > 0,
        n == q * d + r,
        r < d,
    ensures
        n / d == q,
        n % d == r,
{
    vstd::arithmetic::div_mod::lemma_fundamental_div_mod_converse(n as int, d as int, q as int, r as int);
}

/// `2^k` as limbs.
fn two_to_wide(k: u64) -> (r: Vec<u64>)
    ensures
        wv(r@) == two_to(k as nat),
{
    let mut r = from_u128(1);
    let mut i: u64 = 0;
    while i < k
        invariant
            i <= k,
            wv(r@) == two_to(i as nat),
        decreases k - i,
    {
        r = mul_small(&r, 2);
        i = i + 1;
    }
    r
}

/// The quotient `x / d`, when it is below 2^64.
fn quotient(x: &Vec<u64>, d: &Vec<u64>) -> (q: u128)
    requires
        wv(d@) > 0,
        wv(x@) < 0x1_0000_0000_0000_0000 * wv(d@),
    ensures
        q == wv(x@) / wv(d@),
        q < 0x1_0000_0000_0000_0000,
{
    let ghost xv = wv(x@);
    let ghost dv = wv(d@);
    let mut q: u128 = 0;
    let mut h: u128 = 0x1_0000_0000_0000_0000;
    let ghost mut b: nat = 64;
    proof {
        lemma_two_to_consts();
    }
    while h > 1
        invariant
            h == two_to(b),
            h >= 1,
            q + h <= 0x1_0000_0000_0000_0000,
            q * dv <= xv,
            xv < (q + h) * dv,
            dv == wv(d@),
            xv == wv(x@),
            dv > 0,
        decreases h,
    {
        assert(b > 0) by {
            if b == 0 {
                assert(two_to(0) == 1);
            }
        }
        let h2 = h / 2;
        assert(two_to(b) == 2 * two_to((b - 1) as nat));
        proof {
            b = (b - 1) as nat;
        }
        assert(h2 == two_to(b));
        let c = q + h2;
        let t = mul_u128(d, c);
        if !lt(x, &t) {
            assert((c + h2) * dv == (q + h) * dv) by (nonlinear_arith)
                requires
                    c + h2 == q + h,
            ;
            q = c;
        }
        h = h2;
    }
    proof {
        assert(xv < (q + 1) * dv);
        let r = (xv - q * dv) as nat;
        assert((q + 1) * dv == q * dv + dv) by (nonlinear_arith);
        lemma_div_of(xv, q as nat, r, dv);
    }
    q
}

/// `x / d` rounded to the nearest integer, ties to even, when it is below 2^64.
fn round_quotient(x: &Vec<u64>, d: &Vec<u64>) -> (k: u128)
    requires
        wv(d@) > 0,
        wv(x@) < 0x1_0000_0000_0000_0000 * wv(d@),
    ensures
        k == round_div(wv(x@), wv(d@)),
        k <= 0x1_0000_0000_0000_0000,
{
    let ghost xv = wv(x@);
    let ghost dv = wv(d@);
    let q = quotient(x, d);
    let qd = mul_u128(d, q);
    proof {
        vstd::arithmetic::div_mod::lemma_fundamental_div_mod(xv as int, dv as int);
        assert(q * dv <= xv) by (nonlinear_arith)
            requires
                xv == dv * (xv / dv) + xv % dv,
                q == xv / dv,
                xv % dv >= 0,
        ;
        assert(wv(qd@) == q * dv) by (nonlinear_arith)
            requires
                wv(qd@) == dv * q,
        ;
    }
    let r = difference(x, &qd);
    let r2 = mul_small(&r, 2);
    proof {
        assert(q * dv == dv * q) by (nonlinear_arith);
        assert(xv % dv == xv - q * dv);
    }
    if lt(d, &r2) {
        q + 1
    } else if lt(&r2, d) {
        q
    } else if q % 2 == 0 {
        q
    } else {
        q + 1
    }
}

/// The double nearest to `num / den` (ties to even).
pub fn nearest_wide(xn: &Vec<u64>, dn: &Vec<u64>) -> (r: (u64, i64))
    requires
        wv(dn@) >= 1,
        wv(xn@) < two_to(200),
        wv(dn@) < two_to(200),
    ensures
        (r.0 as nat, r.1 as int) == nearest(wv(xn@), wv(dn@)),
        r.0 <= 0x20_0000_0000_0000,
        wv(xn@) >= 1 ==> r.0 >= 1,
        f_num((r.0 as nat, r.1 as int)) <= 2 * wv(xn@) + 0x20_0000_0000_0000,
        r.1 < 0 ==> f_den((r.0 as nat, r.1 as int)) * wv(xn@) <= 0x20_0000_0000_0000 * wv(dn@),
{
    let ghost num = wv(xn@);
    let ghost den = wv(dn@);
    proof {
        lemma_two_to_consts();
    }
    let zero: Vec<u64> = Vec::new();
    assert(wv(zero@) == 0);
    if eq(xn, &zero) {
        assert(two_to(0) == 1);
        assert(0 * two_to(0) == 0);
        return (0, 0);
    }
    let x = crate::wide::sum(xn, &zero);
    let dw = crate::wide::sum(dn, &zero);
    let lo = mul_u128(&dw, 0x10_0000_0000_0000);
    let hi = mul_u128(&dw, 0x20_0000_0000_0000);
    assert(wv(lo@) == 0x10_0000_0000_0000 * den) by (nonlinear_arith)
        requires
            wv(lo@) == wv(dw@) * 0x10_0000_0000_0000,
            wv(dw@) == den,
    ;
    assert(wv(hi@) == 0x20_0000_0000_0000 * den) by (nonlinear_arith)
        requires
            wv(hi@) == wv(dw@) * 0x20_0000_0000_0000,
            wv(dw@) == den,
    ;
    if lt(&x, &lo) {
        let mut xs = x;
        let mut k: u64 = 0;
        assert(two_to(0) == 1);
        assert(num * two_to(0) == num);
        while lt(&xs, &lo)
            invariant
                wv(xs@) == num * two_to(k as nat),
                wv(lo@) == 0x10_0000_0000_0000 * den,
                wv(hi@) == 0x20_0000_0000_0000 * den,
                1 <= num < two_to(200),
                1 <= den < two_to(200),
                k <= 252,
                k == 0 || wv(xs@) < 0x20_0000_0000_0000 * den,
                down_from(num as nat, den as nat, 0, 256) == down_from(num as nat, den as nat, k as nat, (256 - k) as nat),
                two_to(128) == 0x1_0000_0000_0000_0000_0000_0000_0000_0000,
                two_to(252) == 0x10_0000_0000_0000 * two_to(200),
            decreases 252 - k,
        {
            proof {
                lemma_two_to_pos(k as nat);
                if k >= 252 {
                    if k > 252 {
                        lemma_two_to_mono(252, k as nat);
                    }
                    assert(num * two_to(k as nat) >= two_to(k as nat)) by (nonlinear_arith)
                        requires
                            num >= 1,
                    ;
                    assert(0x10_0000_0000_0000 * den < two_to(252)) by (nonlinear_arith)
                        requires
                            den < two_to(200),
                            two_to(252) == 0x10_0000_0000_0000 * two_to(200),
                    ;
                    assert(false);
                }
            }
            xs = mul_small(&xs, 2);
            proof {
                assert(two_to((k + 1) as nat) == 2 * two_to(k as nat));
                assert(wv(xs@) == num * two_to((k + 1) as nat)) by (nonlinear_arith)
                    requires
                        wv(xs@) == num * two_to(k as nat) * 2,
                        two_to((k + 1) as nat) == 2 * two_to(k as nat),
                ;
            }
            k = k + 1;
        }
        let m = round_quotient(&xs, &dw);
        proof {
            assert(wv(xs@) < 0x20_0000_0000_0000 * den);
            assert(m <= 0x20_0000_0000_0000) by {
                vstd::arithmetic::div_mod::lemma_fundamental_div_mod(wv(xs@) as int, den as int);
                assert(wv(xs@) / (den as nat) < 0x20_0000_0000_0000) by (nonlinear_arith)
                    requires
                        wv(xs@) < 0x20_0000_0000_0000 * den,
                        den >= 1,
                ;
            }
            assert(wv(xs@) >= 0x10_0000_0000_0000 * den);
            assert(m >= 1) by {
                vstd::arithmetic::div_mod::lemma_fundamental_div_mod(wv(xs@) as int, den as int);
                assert(wv(xs@) / (den as nat) >= 1) by (nonlinear_arith)
                    requires
                        wv(xs@) >= 0x10_0000_0000_0000 * den,
                        den >= 1,
                ;
            }
            assert(k >= 1);
            assert(two_to(k as nat) * num == wv(xs@)) by (nonlinear_arith)
                requires
                    wv(xs@) == num * two_to(k as nat),
            ;
        }
        (m as u64, -(k as i64))
    } else {
        let mut ds = hi;
        let mut dk = dw;
        let mut k: u64 = 0;
        assert(wv(dk@) == den * two_to(0));
        while !lt(&x, &ds)
            invariant
                wv(ds@) == 0x20_0000_0000_0000 * den * two_to(k as nat),
                wv(dk@) == den * two_to(k as nat),
                wv(x@) == num,
                1 <= num < two_to(200),
                1 <= den,
                k <= 200,
                num >= 0x10_0000_0000_0000 * den * two_to(k as nat),
                up_from(num as nat, den as nat, 0, 256) == up_from(num as nat, den as nat, k as nat, (256 - k) as nat),
                two_to(200) > 0,
            decreases 200 - k,
        {
            proof {
                lemma_two_to_pos(k as nat);
                if k >= 200 {
                    if k > 200 {
                        lemma_two_to_mono(200, k as nat);
                    }
                    assert(0x20_0000_0000_0000 * den * two_to(k as nat) >= two_to(k as nat)) by (nonlinear_arith)
                        requires
                            den >= 1,
                            two_to(k as nat) >= 1,
                    ;
                    assert(false);
                }
                assert(two_to((k + 1) as nat) == 2 * two_to(k as nat));
            }
            ds = mul_small(&ds, 2);
            dk = mul_small(&dk, 2);
            proof {
                assert(wv(ds@) == 0x20_0000_0000_0000 * den * two_to((k + 1) as nat)) by (nonlinear_arith)
                    requires
                        wv(ds@) == 0x20_0000_0000_0000 * den * two_to(k as nat) * 2,
                        two_to((k + 1) as nat) == 2 * two_to(k as nat),
                ;
                assert(wv(dk@) == den * two_to((k + 1) as nat)) by (nonlinear_arith)
                    requires
                        wv(dk@) == den * two_to(k as nat) * 2,
                        two_to((k + 1) as nat) == 2 * two_to(k as nat),
                ;
                assert(num >= 0x10_0000_0000_0000 * den * two_to((k + 1) as nat)) by (nonlinear_arith)
                    requires
                        num >= 0x20_0000_0000_0000 * den * two_to(k as nat),
                        two_to((k + 1) as nat) == 2 * two_to(k as nat),
                ;
            }
            k = k + 1;
        }
        proof {
            lemma_two_to_pos(k as nat);
            assert(num < 0x1_0000_0000_0000_0000 * wv(dk@)) by (nonlinear_arith)
                requires
                    num < 0x20_0000_0000_0000 * den * two_to(k as nat),
                    wv(dk@) == den * two_to(k as nat),
            ;
            assert(wv(dk@) > 0) by (nonlinear_arith)
                requires
                    wv(dk@) == den * two_to(k as nat),
                    den >= 1,
                    two_to(k as nat) >= 1,
            ;
        }
        let m = round_quotient(&x, &dk);
        proof {
            assert(0x20_0000_0000_0000 * den * two_to(k as nat) == 0x20_0000_0000_0000 * (den * two_to(k as nat)))
                by (nonlinear_arith);
            let dd = wv(dk@);
            let nn: nat = num;
            vstd::arithmetic::div_mod::lemma_fundamental_div_mod(nn as int, dd as int);
            assert(nn / dd < 0x20_0000_0000_0000) by (nonlinear_arith)
                requires
                    nn < 0x20_0000_0000_0000 * dd,
                    dd >= 1,
            ;
            assert(m <= 0x20_0000_0000_0000);
            assert(0x10_0000_0000_0000 * den * two_to(k as nat) == 0x10_0000_0000_0000 * (den * two_to(k as nat)))
                by (nonlinear_arith);
            assert(nn >= 0x10_0000_0000_0000 * dd);
            assert(m * dd <= nn + dd) by (nonlinear_arith)
                requires
                    m <= nn / dd + 1,
                    nn == dd * (nn / dd) + nn % dd,
                    nn % dd >= 0,
                    dd >= 1,
            ;
            assert(dd <= nn) by (nonlinear_arith)
                requires
                    nn >= 0x10_0000_0000_0000 * dd,
            ;
            assert(m * two_to(k as nat) <= m * dd) by (nonlinear_arith)
                requires
                    dd == den * two_to(k as nat),
                    den >= 1,
            ;
            assert(m >= 1) by {
                assert(nn / dd >= 1) by (nonlinear_arith)
                    requires
                        nn >= 0x10_0000_0000_0000 * dd,
                        dd >= 1,
                ;
            }
        }
        (m as u64, k as i64)
    }
}


/// The double nearest to `num / den` (ties to even).
pub fn nearest_exec(num: u128, den: u128) -> (r: (u64, i64))
    requires
        den >= 1,
    ensures
        (r.0 as nat, r.1 as int) == nearest(num as nat, den as nat),
        r.0 <= 0x20_0000_0000_0000,
        num >= 1 ==> r.0 >= 1,
        f_num((r.0 as nat, r.1 as int)) <= 2 * num + 0x20_0000_0000_0000,
        r.1 < 0 ==> f_den((r.0 as nat, r.1 as int)) * num <= 0x20_0000_0000_0000 * den,
{
    proof {
        lemma_two_to_consts();
    }
    let x = from_u128(num);
    let d = from_u128(den);
    nearest_wide(&x, &d)
}

/// The value of a double as a fraction (numerator, denominator).
fn parts(x: (u64, i64)) -> (r: (u128, u128))
    requires
        f_num((x.0 as nat, x.1 as int)) < 0x1_0000_0000_0000_0000_0000_0000_0000_0000,
        f_den((x.0 as nat, x.1 as int)) < 0x1_0000_0000_0000_0000_0000_0000_0000_0000,
    ensures
        r.0 == f_num((x.0 as nat, x.1 as int)),
        r.1 == f_den((x.0 as nat, x.1 as int)),
{
    let (m, e) = x;
    if e >= 0 {
        let mut v: u128 = m as u128;
        let mut i: i64 = 0;
        assert(two_to(0) == 1);
        assert(m * two_to(0) == m) by (nonlinear_arith)
            requires
                two_to(0) == 1,
        ;
        while i < e
            invariant
                0 <= i <= e,
                v == m * two_to(i as nat),
                m * two_to(e as nat) < 0x1_0000_0000_0000_0000_0000_0000_0000_0000,
            decreases e - i,
        {
            proof {
                assert(two_to((i + 1) as nat) == 2 * two_to(i as nat));
                if i + 1 < e {
                    lemma_two_to_mono((i + 1) as nat, e as nat);
                }
                assert(m * two_to((i + 1) as nat) <= m * two_to(e as nat)) by (nonlinear_arith)
                    requires
                        two_to((i + 1) as nat) <= two_to(e as nat),
                ;
                assert(v * 2 == m * two_to((i + 1) as nat)) by (nonlinear_arith)
                    requires
                        v == m * two_to(i as nat),
                        two_to((i + 1) as nat) == 2 * two_to(i as nat),
                ;
            }
            v = v * 2;
            i = i + 1;
        }
        (v, 1)
    } else {
        proof {
            lemma_two_to_consts();
            if -e >= 128 {
                if -e > 128 {
                    lemma_two_to_mono(128, (-e) as nat);
                }
            }
        }
        let ne: i64 = -e;
        let mut d: u128 = 1;
        let mut i: i64 = 0;
        assert(two_to(0) == 1);
        while i < ne
            invariant
                e < 0,
                ne == -e,
                0 <= i <= -e,
                d == two_to(i as nat),
                two_to((-e) as nat) < 0x1_0000_0000_0000_0000_0000_0000_0000_0000,
            decreases ne - i,
        {
            proof {
                assert(two_to((i + 1) as nat) == 2 * two_to(i as nat));
                if i + 1 < -e {
                    lemma_two_to_mono((i + 1) as nat, (-e) as nat);
                }
            }
            d = d * 2;
            i = i + 1;
        }
        (m as u128, d)
    }
}

/// `x / y` in binary64.
pub fn fdiv_exec(x: (u64, i64), y: (u64, i64)) -> (r: (u64, i64))
    requires
        f_num((x.0 as nat, x.1 as int)) < 0x1_0000_0000_0000_0000_0000_0000_0000_0000,
        f_den((x.0 as nat, x.1 as int)) < 0x1_0000_0000_0000_0000_0000_0000_0000_0000,
        f_num((y.0 as nat, y.1 as int)) < 0x1_0000_0000_0000_0000_0000_0000_0000_0000,
        f_den((y.0 as nat, y.1 as int)) < 0x1_0000_0000_0000_0000_0000_0000_0000_0000,
        f_num((x.0 as nat, x.1 as int)) * f_den((y.0 as nat, y.1 as int)) < 0x1_0000_0000_0000_0000_0000_0000_0000_0000,
        f_den((x.0 as nat, x.1 as int)) * f_num((y.0 as nat, y.1 as int)) < 0x1_0000_0000_0000_0000_0000_0000_0000_0000,
        f_num((y.0 as nat, y.1 as int)) >= 1,
    ensures
        (r.0 as nat, r.1 as int) == fdiv((x.0 as nat, x.1 as int), (y.0 as nat, y.1 as int)),
        r.0 <= 0x20_0000_0000_0000,
{
    let (xn, xd) = parts(x);
    let (yn, yd) = parts(y);
    proof {
        lemma_two_to_pos((-x.1) as nat);
        assert(xd >= 1);
        assert(xd * yn >= 1) by (nonlinear_arith)
            requires
                xd >= 1,
                yn >= 1,
        ;
    }
    nearest_exec(xn * yd, xd * yn)
}

/// The value of a double as a fraction (numerator, denominator), as limbs.
fn parts_wide(x: (u64, i64)) -> (r: (Vec<u64>, Vec<u64>))
    ensures
        wv(r.0@) == f_num((x.0 as nat, x.1 as int)),
        wv(r.1@) == f_den((x.0 as nat, x.1 as int)),
{
    let (m, e) = x;
    let mw = from_u128(m as u128);
    if e >= 0 {
        let p = two_to_wide(e as u64);
        (crate::wide::mul_wide(&mw, &p), from_u128(1))
    } else {
        let k: u64 = ((-(e + 1)) as u64) + 1;
        assert(k as int == -e);
        (mw, two_to_wide(k))
    }
}

/// `x < y` on the values.
pub fn f_lt_exec(x: (u64, i64), y: (u64, i64)) -> (r: bool)
    ensures
        r == f_lt((x.0 as nat, x.1 as int), (y.0 as nat, y.1 as int)),
{
    let (xn, xd) = parts_wide(x);
    let (yn, yd) = parts_wide(y);
    let a = crate::wide::mul_wide(&xn, &yd);
    let b = crate::wide::mul_wide(&yn, &xd);
    lt(&a, &b)
}

/// Appends `format!("{:.p}", x)`.
pub fn push_fmt_fixed(s: &mut String, x: (u64, i64), p: u32)
    requires
        p <= 3,
        x.0 <= 0x20_0000_0000_0000,
    ensures
        final(s)@ == old(s)@ + fmt_fixed((x.0 as nat, x.1 as int), p as nat),
{
    let pm = crate::numfmt::pow10_exec(p);
    proof {
        crate::numfmt::lemma_pow10(p as nat);
    }
    let (xn, xd) = parts_wide(x);
    let scaled = mul_small(&xn, pm as u64);
    if x.1 >= 0 {
        proof {
            let n = wv(scaled@);
            lemma_div_of(n, n, 0, 1);
            assert(round_div(n, 1) == n);
        }
        push_fixed_wide(s, &scaled, p);
    } else {
        proof {
            lemma_two_to_pos((-x.1) as nat);
            assert(wv(scaled@) < 0x1_0000_0000_0000_0000 * wv(xd@)) by (nonlinear_arith)
                requires
                    wv(scaled@) == wv(xn@) * pm,
                    wv(xn@) <= 0x20_0000_0000_0000,
                    pm <= 1000,
                    wv(xd@) >= 1,
            ;
        }
        let k = round_quotient(&scaled, &xd);
        let kw = from_u128(k);
        push_fixed_wide(s, &kw, p);
    }
}


/// `x · k` in binary64 (`k` exactly representable).
pub open spec fn scale(x: F64V, k: nat) -> F64V {
    nearest(f_num(x) * k, f_den(x))
}

/// `h as f64 * 100.0 / n as f64`: a count per hundred.
pub open spec fn rate100(h: nat, n: nat) -> F64V {
    fdiv(scale(of_int(h), 100), of_int(n))
}

/// The bounds of a rounded quotient: a non-zero numerator gives a bounded
/// denominator.
pub proof fn lemma_nearest_den(num: nat, den: nat, r: F64V)
    requires
        r.1 < 0 ==> f_den(r) * num <= 0x20_0000_0000_0000 * den,
        num >= 1 || r.1 >= 0,
    ensures
        f_den(r) <= 0x20_0000_0000_0000 * den || f_den(r) == 1,
{
    if r.1 < 0 {
        assert(f_den(r) <= f_den(r) * num) by (nonlinear_arith)
            requires
                num >= 1,
        ;
    }
}

/// `x / y` in binary64, on wide values.
pub fn fdiv_wide(x: (u64, i64), y: (u64, i64)) -> (r: (u64, i64))
    requires
        f_num((x.0 as nat, x.1 as int)) * f_den((y.0 as nat, y.1 as int)) < two_to(200),
        f_den((x.0 as nat, x.1 as int)) * f_num((y.0 as nat, y.1 as int)) < two_to(200),
        f_num((y.0 as nat, y.1 as int)) >= 1,
    ensures
        (r.0 as nat, r.1 as int) == fdiv((x.0 as nat, x.1 as int), (y.0 as nat, y.1 as int)),
        r.0 <= 0x20_0000_0000_0000,
        f_num((r.0 as nat, r.1 as int)) <= 2 * (f_num((x.0 as nat, x.1 as int)) * f_den((y.0 as nat, y.1 as int)))
            + 0x20_0000_0000_0000,
        r.1 < 0 ==> f_den((r.0 as nat, r.1 as int)) * (f_num((x.0 as nat, x.1 as int)) * f_den((y.0 as nat, y.1 as int)))
            <= 0x20_0000_0000_0000 * (f_den((x.0 as nat, x.1 as int)) * f_num((y.0 as nat, y.1 as int))),
{
    let (xn, xd) = parts_wide(x);
    let (yn, yd) = parts_wide(y);
    let a = crate::wide::mul_wide(&xn, &yd);
    let b = crate::wide::mul_wide(&xd, &yn);
    proof {
        lemma_two_to_pos((-x.1) as nat);
        assert(wv(xd@) >= 1);
        assert(wv(b@) >= 1) by (nonlinear_arith)
            requires
                wv(b@) == wv(xd@) * wv(yn@),
                wv(xd@) >= 1,
                wv(yn@) >= 1,
        ;
    }
    nearest_wide(&a, &b)
}

/// `x · k` in binary64, on wide values.
pub fn scale_wide(x: (u64, i64), k: u64) -> (r: (u64, i64))
    requires
        f_num((x.0 as nat, x.1 as int)) * k < two_to(200),
        f_den((x.0 as nat, x.1 as int)) < two_to(200),
    ensures
        (r.0 as nat, r.1 as int) == scale((x.0 as nat, x.1 as int), k as nat),
        r.0 <= 0x20_0000_0000_0000,
        f_num((r.0 as nat, r.1 as int)) <= 2 * (f_num((x.0 as nat, x.1 as int)) * k) + 0x20_0000_0000_0000,
        r.1 < 0 ==> f_den((r.0 as nat, r.1 as int)) * (f_num((x.0 as nat, x.1 as int)) * k) <= 0x20_0000_0000_0000
            * f_den((x.0 as nat, x.1 as int)),
{
    let (xn, xd) = parts_wide(x);
    let a = mul_small(&xn, k);
    proof {
        lemma_two_to_pos((-x.1) as nat);
    }
    nearest_wide(&a, &xd)
}

/// `h as f64 * 100.0 / n as f64` for a wide count `h`.
pub fn rate100_exec(h: &Vec<u64>, n: usize) -> (r: (u64, i64))
    requires
        n >= 1,
        wv(h@) < 0x4_0000_0000_0000_0000_0000_0000_0000_0000,
    ensures
        (r.0 as nat, r.1 as int) == rate100(wv(h@), n as nat),
        r.0 <= 0x20_0000_0000_0000,
{
    proof {
        lemma_two_to_consts();
    }
    let one = from_u128(1);
    let a = nearest_wide(h, &one);
    let ghost av = (a.0 as nat, a.1 as int);
    proof {
        if wv(h@) == 0 {
            assert(av == nearest(0, 1));
        }
        lemma_nearest_den(wv(h@), 1, av);
        assert(f_num(av) * 100 < two_to(200));
    }
    let s = scale_wide(a, 100);
    let nw = from_u128(n as u128);
    let nd = nearest_wide(&nw, &one);
    let ghost sv = (s.0 as nat, s.1 as int);
    let ghost ndv = (nd.0 as nat, nd.1 as int);
    proof {
        lemma_nearest_den(n as nat, 1, ndv);
        if f_num(av) == 0 {
            assert(f_num(av) * 100 == 0);
            assert(sv == nearest(0, f_den(av)));
            assert(f_den(sv) == 1);
        } else {
            assert(f_num(av) * 100 >= 1);
            lemma_nearest_den(f_num(av) * 100, f_den(av), sv);
        }
        lemma_two_to_pos(ndv.1 as nat);
        if ndv.1 >= 0 {
            assert(nd.0 * two_to(ndv.1 as nat) >= 1) by (nonlinear_arith)
                requires
                    nd.0 >= 1,
                    two_to(ndv.1 as nat) >= 1,
            ;
        }
        assert(f_num(sv) * f_den(ndv) < two_to(200)) by (nonlinear_arith)
            requires
                f_num(sv) <= 2 * (f_num(av) * 100) + 0x20_0000_0000_0000,
                f_num(av) <= 2 * wv(h@) + 0x20_0000_0000_0000,
                wv(h@) < 0x4_0000_0000_0000_0000_0000_0000_0000_0000,
                f_den(ndv) <= 0x20_0000_0000_0000,
                two_to(200) == 0x1_0000_0000_0000_0000_0000_0000_0000_0000 * 0x1_0000_0000_0000_0000 * 0x100,
        ;
        lemma_two_to_pos((-av.1) as nat);
        assert(f_den(av) >= 1);
        assert(f_den(sv) <= 0x20_0000_0000_0000 * f_den(av));
        assert(f_den(sv) * f_num(ndv) < two_to(200)) by (nonlinear_arith)
            requires
                f_den(sv) <= 0x20_0000_0000_0000 * f_den(av),
                f_den(av) <= 0x20_0000_0000_0000,
                f_num(ndv) <= 2 * n + 0x20_0000_0000_0000,
                n <= 0xffff_ffff_ffff_ffff,
                two_to(200) == 0x1_0000_0000_0000_0000_0000_0000_0000_0000 * 0x1_0000_0000_0000_0000 * 0x100,
        ;
    }
    fdiv_wide(s, nd)
}

} // verus!

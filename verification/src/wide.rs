// wide.rs — unbounded natural numbers as little-endian vectors of 64-bit
// limbs: just enough arithmetic (products, sums, comparisons, division by a
// machine word) to decide the detectors' thresholds exactly on documents of
// any length.
use vstd::prelude::*;

verus! {

/// The value of the limbs `v[i..]`, least significant first.
pub open spec fn wv_from(v: Seq<u64>, i: int) -> nat
    decreases v.len() - i,
{
    if i < 0 || i >= v.len() {
        0
    } else {
        v[i] as nat + 0x1_0000_0000_0000_0000 * wv_from(v, i + 1)
    }
}

/// The value of the limbs `v`.
pub open spec fn wv(v: Seq<u64>) -> nat {
    wv_from(v, 0)
}

proof fn lemma_shift_from(x: u64, rest: Seq<u64>, i: int)
    requires
        i >= 0,
    ensures
        wv_from(seq![x] + rest, i + 1) == wv_from(rest, i),
    decreases rest.len() - i,
{
    let s = seq![x] + rest;
    if i < rest.len() {
        lemma_shift_from(x, rest, i + 1);
        assert(s[i + 1] == rest[i]);
    }
}

/// `x` as the least significant limb below `rest`.
fn cons(x: u64, rest: Vec<u64>) -> (r: Vec<u64>)
    ensures
        wv(r@) == x + 0x1_0000_0000_0000_0000 * wv(rest@),
{
    let mut r: Vec<u64> = vec![x];
    let mut rest = rest;
    let ghost old_rest = rest@;
    r.append(&mut rest);
    proof {
        assert(r@ =~= seq![x] + old_rest);
        lemma_shift_from(x, old_rest, 0);
        assert(r@[0] == x);
    }
    r
}

/// The limbs of a 128-bit number.
pub fn from_u128(a: u128) -> (r: Vec<u64>)
    ensures
        wv(r@) == a,
{
    let lo = (a % 0x1_0000_0000_0000_0000) as u64;
    let hi = (a / 0x1_0000_0000_0000_0000) as u64;
    let top: Vec<u64> = vec![hi];
    proof {
        assert(wv_from(top@, 1) == 0);
        assert(wv(top@) == hi);
    }
    let r = cons(lo, top);
    assert(a == lo + 0x1_0000_0000_0000_0000 * hi);
    r
}

fn mul_small_from(a: &Vec<u64>, i: usize, k: u64, carry: u64) -> (r: Vec<u64>)
    requires
        i <= a.len(),
    ensures
        wv(r@) == carry + k * wv_from(a@, i as int),
    decreases a.len() - i,
{
    if i == a.len() {
        let r: Vec<u64> = vec![carry];
        assert(wv_from(r@, 1) == 0);
        assert(wv_from(a@, i as int) == 0);
        assert(k * wv_from(a@, i as int) == 0) by (nonlinear_arith)
            requires
                wv_from(a@, i as int) == 0,
        ;
        return r;
    }
    let x = a[i];
    assert((x as int) * (k as int) + carry <= 0xffff_ffff_ffff_ffff * 0xffff_ffff_ffff_ffff + 0xffff_ffff_ffff_ffff)
        by (nonlinear_arith)
        requires
            x <= 0xffff_ffff_ffff_ffff,
            k <= 0xffff_ffff_ffff_ffff,
            carry <= 0xffff_ffff_ffff_ffff,
    ;
    let t: u128 = (x as u128) * (k as u128) + carry as u128;
    let lo = (t % 0x1_0000_0000_0000_0000) as u64;
    let hi = (t / 0x1_0000_0000_0000_0000) as u64;
    let rest = mul_small_from(a, i + 1, k, hi);
    let r = cons(lo, rest);
    proof {
        let w = wv_from(a@, i + 1);
        assert(wv_from(a@, i as int) == x + 0x1_0000_0000_0000_0000 * w);
        assert(t == lo + 0x1_0000_0000_0000_0000 * hi);
        assert(lo + 0x1_0000_0000_0000_0000 * (hi + k * w) == carry + k * (x + 0x1_0000_0000_0000_0000 * w))
            by (nonlinear_arith)
            requires
                t == lo + 0x1_0000_0000_0000_0000 * hi,
                t == x * k + carry,
        ;
    }
    r
}

/// `a · k`.
pub fn mul_small(a: &Vec<u64>, k: u64) -> (r: Vec<u64>)
    ensures
        wv(r@) == wv(a@) * k,
{
    let r = mul_small_from(a, 0, k, 0);
    assert(k * wv(a@) == wv(a@) * k) by (nonlinear_arith);
    r
}

fn add_from(a: &Vec<u64>, b: &Vec<u64>, i: usize, carry: u64) -> (r: Vec<u64>)
    requires
        carry <= 1,
    ensures
        wv(r@) == carry + wv_from(a@, i as int) + wv_from(b@, i as int),
    decreases (if a.len() > b.len() {
        a.len()
    } else {
        b.len()
    }) - i,
{
    if i >= a.len() && i >= b.len() {
        let r: Vec<u64> = vec![carry];
        assert(wv_from(r@, 1) == 0);
        return r;
    }
    let x: u64 = if i < a.len() {
        a[i]
    } else {
        0
    };
    let y: u64 = if i < b.len() {
        b[i]
    } else {
        0
    };
    let t: u128 = x as u128 + y as u128 + carry as u128;
    let lo = (t % 0x1_0000_0000_0000_0000) as u64;
    let hi = (t / 0x1_0000_0000_0000_0000) as u64;
    assert(hi <= 1);
    let rest = add_from(a, b, i + 1, hi);
    let r = cons(lo, rest);
    proof {
        let wa = wv_from(a@, i + 1);
        let wb = wv_from(b@, i + 1);
        assert(wv_from(a@, i as int) == x + 0x1_0000_0000_0000_0000 * wa);
        assert(wv_from(b@, i as int) == y + 0x1_0000_0000_0000_0000 * wb);
        assert(t == lo + 0x1_0000_0000_0000_0000 * hi);
        assert(lo + 0x1_0000_0000_0000_0000 * (hi + wa + wb) == carry + (x + 0x1_0000_0000_0000_0000 * wa) + (y
            + 0x1_0000_0000_0000_0000 * wb)) by (nonlinear_arith)
            requires
                t == lo + 0x1_0000_0000_0000_0000 * hi,
                t == x + y + carry,
        ;
    }
    r
}

/// `a + b`.
pub fn sum(a: &Vec<u64>, b: &Vec<u64>) -> (r: Vec<u64>)
    ensures
        wv(r@) == wv(a@) + wv(b@),
{
    add_from(a, b, 0, 0)
}

/// `a · k` for a 128-bit `k`.
pub fn mul_u128(a: &Vec<u64>, k: u128) -> (r: Vec<u64>)
    ensures
        wv(r@) == wv(a@) * k,
{
    let lo = (k % 0x1_0000_0000_0000_0000) as u64;
    let hi = (k / 0x1_0000_0000_0000_0000) as u64;
    let x = mul_small(a, lo);
    let y = mul_small(a, hi);
    let ys = cons(0, y);
    let r = sum(&x, &ys);
    proof {
        let v = wv(a@);
        assert(k == lo + 0x1_0000_0000_0000_0000 * hi);
        assert(v * lo + 0x1_0000_0000_0000_0000 * (v * hi) == v * k) by (nonlinear_arith)
            requires
                k == lo + 0x1_0000_0000_0000_0000 * hi,
        ;
    }
    r
}

/// The product of two 128-bit numbers.
pub fn product(a: u128, b: u128) -> (r: Vec<u64>)
    ensures
        wv(r@) == a * b,
{
    let x = from_u128(a);
    mul_u128(&x, b)
}

fn order_from(a: &Vec<u64>, b: &Vec<u64>, i: usize) -> (r: i8)
    ensures
        r == -1 <==> wv_from(a@, i as int) < wv_from(b@, i as int),
        r == 0 <==> wv_from(a@, i as int) == wv_from(b@, i as int),
        r == 1 <==> wv_from(a@, i as int) > wv_from(b@, i as int),
    decreases (if a.len() > b.len() {
        a.len()
    } else {
        b.len()
    }) - i,
{
    if i >= a.len() && i >= b.len() {
        return 0;
    }
    let x: u64 = if i < a.len() {
        a[i]
    } else {
        0
    };
    let y: u64 = if i < b.len() {
        b[i]
    } else {
        0
    };
    let c = order_from(a, b, i + 1);
    proof {
        let ha = wv_from(a@, i + 1);
        let hb = wv_from(b@, i + 1);
        assert(wv_from(a@, i as int) == x + 0x1_0000_0000_0000_0000 * ha);
        assert(wv_from(b@, i as int) == y + 0x1_0000_0000_0000_0000 * hb);
        assert(ha < hb ==> x + 0x1_0000_0000_0000_0000 * ha < y + 0x1_0000_0000_0000_0000 * hb) by (nonlinear_arith)
            requires
                x < 0x1_0000_0000_0000_0000,
        ;
        assert(ha > hb ==> x + 0x1_0000_0000_0000_0000 * ha > y + 0x1_0000_0000_0000_0000 * hb) by (nonlinear_arith)
            requires
                y < 0x1_0000_0000_0000_0000,
        ;
    }
    if c != 0 {
        return c;
    }
    if x < y {
        -1
    } else if x == y {
        0
    } else {
        1
    }
}

/// Whether `a < b`.
pub fn lt(a: &Vec<u64>, b: &Vec<u64>) -> (r: bool)
    ensures
        r == (wv(a@) < wv(b@)),
{
    order_from(a, b, 0) == -1
}

/// Whether `a == b` in value.
pub fn eq(a: &Vec<u64>, b: &Vec<u64>) -> (r: bool)
    ensures
        r == (wv(a@) == wv(b@)),
{
    order_from(a, b, 0) == 0
}

fn div_small_from(a: &Vec<u64>, i: usize, k: u64) -> (r: (Vec<u64>, u64))
    requires
        k > 0,
        i <= a.len(),
    ensures
        wv(r.0@) * k + r.1 == wv_from(a@, i as int),
        r.1 < k,
    decreases a.len() - i,
{
    if i == a.len() {
        let q: Vec<u64> = Vec::new();
        assert(wv(q@) == 0);
        assert(wv(q@) * k + 0 == 0) by (nonlinear_arith)
            requires
                wv(q@) == 0,
        ;
        return (q, 0);
    }
    let (qh, rh) = div_small_from(a, i + 1, k);
    let x = a[i];
    assert((rh as int) * 0x1_0000_0000_0000_0000 + x < (k as int) * 0x1_0000_0000_0000_0000) by (nonlinear_arith)
        requires
            rh < k,
            x < 0x1_0000_0000_0000_0000,
    ;
    let t: u128 = (rh as u128) * 0x1_0000_0000_0000_0000 + x as u128;
    let ql = t / (k as u128);
    let rl = (t % (k as u128)) as u64;
    assert(ql < 0x1_0000_0000_0000_0000) by (nonlinear_arith)
        requires
            t < k * 0x1_0000_0000_0000_0000,
            ql == t / (k as u128),
            k > 0,
    ;
    let q = cons(ql as u64, qh);
    proof {
        let hq = wv(qh@);
        let w = wv_from(a@, i + 1);
        assert(wv_from(a@, i as int) == x + 0x1_0000_0000_0000_0000 * w);
        assert(t == ql * k + rl) by (nonlinear_arith)
            requires
                ql == t / (k as u128),
                rl == t % (k as u128),
                k > 0,
        ;
        assert((ql + 0x1_0000_0000_0000_0000 * hq) * k + rl == x + 0x1_0000_0000_0000_0000 * w) by (nonlinear_arith)
            requires
                t == ql * k + rl,
                t == rh * 0x1_0000_0000_0000_0000 + x,
                hq * k + rh == w,
        ;
    }
    (q, rl)
}

/// `a` divided by `k`: quotient and remainder.
pub fn div_small(a: &Vec<u64>, k: u64) -> (r: (Vec<u64>, u64))
    requires
        k > 0,
    ensures
        wv(r.0@) * k + r.1 == wv(a@),
        r.1 < k,
{
    div_small_from(a, 0, k)
}


fn sub_from(a: &Vec<u64>, b: &Vec<u64>, i: usize, borrow: u64) -> (r: Vec<u64>)
    requires
        borrow <= 1,
        wv_from(a@, i as int) >= borrow + wv_from(b@, i as int),
    ensures
        wv(r@) + borrow + wv_from(b@, i as int) == wv_from(a@, i as int),
    decreases (if a.len() > b.len() {
        a.len()
    } else {
        b.len()
    }) - i,
{
    if i >= a.len() && i >= b.len() {
        let r: Vec<u64> = Vec::new();
        assert(wv(r@) == 0);
        return r;
    }
    let x: u64 = if i < a.len() {
        a[i]
    } else {
        0
    };
    let y: u64 = if i < b.len() {
        b[i]
    } else {
        0
    };
    let ghost ha = wv_from(a@, i + 1);
    let ghost hb = wv_from(b@, i + 1);
    assert(wv_from(a@, i as int) == x + 0x1_0000_0000_0000_0000 * ha);
    assert(wv_from(b@, i as int) == y + 0x1_0000_0000_0000_0000 * hb);
    let lo: u64;
    let nb: u64;
    if (x as u128) >= (y as u128) + (borrow as u128) {
        lo = x - y - borrow;
        nb = 0;
        assert(ha >= hb) by (nonlinear_arith)
            requires
                x + 0x1_0000_0000_0000_0000 * ha >= borrow + y + 0x1_0000_0000_0000_0000 * hb,
                x < 0x1_0000_0000_0000_0000,
                x >= y + borrow,
        ;
    } else {
        lo = ((x as u128) + 0x1_0000_0000_0000_0000 - (y as u128) - (borrow as u128)) as u64;
        nb = 1;
        assert(ha >= hb + 1) by (nonlinear_arith)
            requires
                x + 0x1_0000_0000_0000_0000 * ha >= borrow + y + 0x1_0000_0000_0000_0000 * hb,
                x < y + borrow,
        ;
    }
    let rest = sub_from(a, b, i + 1, nb);
    let r = cons(lo, rest);
    assert(lo + 0x1_0000_0000_0000_0000 * (ha - nb - hb) + borrow + y + 0x1_0000_0000_0000_0000 * hb == x
        + 0x1_0000_0000_0000_0000 * ha) by (nonlinear_arith)
        requires
            nb == 0 ==> lo == x - y - borrow,
            nb == 1 ==> lo == x + 0x1_0000_0000_0000_0000 - y - borrow,
            nb == 0 || nb == 1,
    ;
    r
}

/// `a - b`, for `b <= a`.
pub fn difference(a: &Vec<u64>, b: &Vec<u64>) -> (r: Vec<u64>)
    requires
        wv(b@) <= wv(a@),
    ensures
        wv(r@) == wv(a@) - wv(b@),
{
    sub_from(a, b, 0, 0)
}


fn mul_from(a: &Vec<u64>, b: &Vec<u64>, i: usize) -> (r: Vec<u64>)
    requires
        i <= b.len(),
    ensures
        wv(r@) == wv(a@) * wv_from(b@, i as int),
    decreases b.len() - i,
{
    if i >= b.len() {
        let r: Vec<u64> = Vec::new();
        assert(wv(r@) == 0);
        assert(wv(a@) * wv_from(b@, i as int) == 0) by (nonlinear_arith)
            requires
                wv_from(b@, i as int) == 0,
        ;
        return r;
    }
    let x = mul_small(a, b[i]);
    let rest = mul_from(a, b, i + 1);
    let shifted = cons(0, rest);
    let r = sum(&x, &shifted);
    proof {
        let w = wv_from(b@, i + 1);
        let av = wv(a@);
        assert(wv_from(b@, i as int) == b[i as int] + 0x1_0000_0000_0000_0000 * w);
        assert(av * b[i as int] + 0x1_0000_0000_0000_0000 * (av * w) == av * (b[i as int] + 0x1_0000_0000_0000_0000
            * w)) by (nonlinear_arith);
    }
    r
}

/// `a · b`.
pub fn mul_wide(a: &Vec<u64>, b: &Vec<u64>) -> (r: Vec<u64>)
    ensures
        wv(r@) == wv(a@) * wv(b@),
{
    mul_from(a, b, 0)
}

} // verus!

use correo::numfmt::{push_dec_wide, push_root_wide};
use correo::wide::{difference, div_small, eq, from_u128, lt, mul_small, mul_u128, product, sum};

fn dec(v: &Vec<u64>) -> String {
    let mut out: Vec<char> = Vec::new();
    push_dec_wide(&mut out, v);
    out.into_iter().collect()
}

#[test]
fn wide_products_beyond_128_bits_are_exact() {
    let a = u128::MAX;
    let p = product(a, a);
    // (2^128 - 1)^2 = 2^256 - 2^129 + 1
    assert_eq!(
        dec(&p),
        "115792089237316195423570985008687907852589419931798687112530834793049593217025"
    );
    let q = mul_small(&p, 400);
    let r = mul_u128(&p, 400);
    assert!(eq(&q, &r));
    let s = sum(&p, &from_u128(1));
    assert!(lt(&p, &s));
    assert!(eq(&difference(&s, &p), &from_u128(1)));
    let (h, rem) = div_small(&from_u128(1001), 10);
    assert!(eq(&h, &from_u128(100)));
    assert_eq!(rem, 1);
}

#[test]
fn wide_root_rounds_half_to_even() {
    let mut t = String::new();
    // sqrt(81 / 100) = 0.9
    push_root_wide(&mut t, &from_u128(81), &from_u128(100), 2, 100);
    assert_eq!(t, "0.90");
}

use vstd::prelude::*;
use vstd::arithmetic::div_mod::{lemma_div_is_ordered, lemma_div_multiples_vanish};
use vstd::arithmetic::mul::lemma_mul_inequality;

verus! {

/// The value `i / den` of the way from `a` to `b`, rounded toward `a`.
pub open spec fn lerp(a: int, b: int, i: int, den: int) -> int {
    if b >= a {
        a + (b - a) * i / den
    } else {
        a - (a - b) * i / den
    }
}

/// `lerp` never leaves the closed interval between its two ends.
pub proof fn lemma_lerp_between(a: int, b: int, i: int, den: int)
    requires
        0 <= i <= den,
        0 < den,
    ensures
        b >= a ==> a <= lerp(a, b, i, den) <= b,
        b < a ==> b <= lerp(a, b, i, den) <= a,
        i == 0 ==> lerp(a, b, i, den) == a,
        i == den ==> lerp(a, b, i, den) == b,
{
    let w = if b >= a { b - a } else { a - b };
    lemma_mul_inequality(i, den, w);
    assert(w * i <= w * den) by (nonlinear_arith)
        requires i <= den, w >= 0;
    assert(0 <= w * i) by (nonlinear_arith)
        requires i >= 0, w >= 0;
    lemma_div_is_ordered(0, w * i, den);
    lemma_div_is_ordered(w * i, w * den, den);
    lemma_div_multiples_vanish(w, den);
    assert(den * w == w * den) by (nonlinear_arith);
    if i == 0 {
        assert(w * i == 0);
    }
}

/// Interpolates between two 64-bit values at step `i` of `den`.
pub fn lerp_i64(a: i64, b: i64, i: u128, den: u128) -> (r: i64)
    requires
        0 < den,
        i <= den,
        den <= 0x1_0000_0000_0000_0000,
    ensures
        r == lerp(a as int, b as int, i as int, den as int),
{
    proof {
        lemma_lerp_between(a as int, b as int, i as int, den as int);
    }
    if b >= a {
        let w = (b as i128 - a as i128) as u128;
        assert(w * i <= 0xffff_ffff_ffff_ffff * 0x1_0000_0000_0000_0000) by (nonlinear_arith)
            requires w <= 0xffff_ffff_ffff_ffff, i <= 0x1_0000_0000_0000_0000;
        let q = (w * i) / den;
        (a as i128 + q as i128) as i64
    } else {
        let w = (a as i128 - b as i128) as u128;
        assert(w * i <= 0xffff_ffff_ffff_ffff * 0x1_0000_0000_0000_0000) by (nonlinear_arith)
            requires w <= 0xffff_ffff_ffff_ffff, i <= 0x1_0000_0000_0000_0000;
        let q = (w * i) / den;
        (a as i128 - q as i128) as i64
    }
}

} // verus!

//! Rounding a quotient to the nearest integer, and saturation to 16 bits.

use vstd::prelude::*;

verus! {

/// Quotient of `a` by a positive `n`, rounded to the nearest integer. A
/// quotient that lies halfway between two integers goes to the one farther
/// from zero.
pub open spec fn nearest(a: int, n: int) -> int {
    if a >= 0 {
        (2 * a + n) / (2 * n)
    } else {
        -((-2 * a + n) / (2 * n))
    }
}

/// `v` saturated to the 16-bit range.
pub open spec fn saturate_i16(v: int) -> int {
    if v < i16::MIN {
        i16::MIN as int
    } else if v > i16::MAX {
        i16::MAX as int
    } else {
        v
    }
}

/// No integer is closer to the quotient of `a` by `n` than `nearest(a, n)`:
/// it is at most half away from it. Where the quotient lies exactly halfway,
/// the rounded value is the one farther from zero; where `a` is a multiple
/// of `n`, it is the quotient itself. Rounding is symmetric about zero.
pub proof fn lemma_nearest_is_closest(a: int, n: int)
    requires
        n > 0,
    ensures
        -n <= 2 * (a - nearest(a, n) * n) <= n,
        a >= 0 ==> 2 * (a - nearest(a, n) * n) < n,
        a <= 0 ==> -n < 2 * (a - nearest(a, n) * n),
        a % n == 0 ==> nearest(a, n) * n == a,
        nearest(-a, n) == -nearest(a, n),
{
    let m = 2 * n;
    if a >= 0 {
        let t = 2 * a + n;
        vstd::arithmetic::div_mod::lemma_fundamental_div_mod(t, m);
        vstd::arithmetic::div_mod::lemma_mod_bound(t, m);
        assert(m * (t / m) == 2 * ((t / m) * n)) by (nonlinear_arith)
            requires
                m == 2 * n,
        ;
    } else {
        let t = -2 * a + n;
        vstd::arithmetic::div_mod::lemma_fundamental_div_mod(t, m);
        vstd::arithmetic::div_mod::lemma_mod_bound(t, m);
        assert(m * (t / m) == 2 * ((t / m) * n)) by (nonlinear_arith)
            requires
                m == 2 * n,
        ;
        assert((-(t / m)) * n == -((t / m) * n)) by (nonlinear_arith);
    }
    if a == 0 {
        vstd::arithmetic::div_mod::lemma_basic_div(n, 2 * n);
        let q = nearest(a, n);
        assert(q == 0);
        assert(q * n == 0) by (nonlinear_arith)
            requires
                q == 0,
        ;
    }
    if a % n == 0 {
        vstd::arithmetic::div_mod::lemma_fundamental_div_mod(a, n);
        let k = a / n;
        let q = nearest(a, n);
        assert(a == n * k);
        assert(q == k) by (nonlinear_arith)
            requires
                a == n * k,
                n > 0,
                -n <= 2 * (a - q * n) <= n,
                a >= 0 ==> 2 * (a - q * n) < n,
                a <= 0 ==> -n < 2 * (a - q * n),
        ;
        assert(k * n == n * k) by (nonlinear_arith);
    }
}

/// Rounding a quotient of at most 16-bit magnitude stays in the 16-bit
/// range: where `a` lies between `n` times the least and the greatest 16-bit
/// value, saturation changes nothing.
pub proof fn lemma_nearest_in_range(a: int, n: int)
    requires
        n > 0,
        i16::MIN * n <= a <= i16::MAX * n,
    ensures
        i16::MIN <= nearest(a, n) <= i16::MAX,
        saturate_i16(nearest(a, n)) == nearest(a, n),
{
    lemma_nearest_is_closest(a, n);
    let q = nearest(a, n);
    assert(i16::MIN <= q <= i16::MAX) by (nonlinear_arith)
        requires
            n > 0,
            i16::MIN * n <= a <= i16::MAX * n,
            -n <= 2 * (a - q * n) <= n,
            a >= 0 ==> 2 * (a - q * n) < n,
            a <= 0 ==> -n < 2 * (a - q * n),
    ;
}

} // verus!

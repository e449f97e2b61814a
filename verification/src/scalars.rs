//! Scalar helpers for the fixed-point arithmetic: Euclidean division and
//! remainder on signed words, and an integer square root.

use vstd::prelude::*;

verus! {

/// `m` is the floor of the real square root of `n`.
pub open spec fn is_sqrt_floor(n: int, m: int) -> bool {
    0 <= m && m * m <= n && n < (m + 1) * (m + 1)
}

/// Floor of the real square root of `n`: the unique `m >= 0` with
/// `m * m <= n < (m + 1) * (m + 1)`.
pub open spec fn sqrt_floor(n: int) -> int {
    choose|m: int| is_sqrt_floor(n, m)
}

/// Every `n >= 0` has an integer square root.
pub proof fn lemma_sqrt_floor_exists(n: int)
    requires
        n >= 0,
    ensures
        exists|m: int| is_sqrt_floor(n, m),
    decreases n,
{
    if n == 0 {
        assert(is_sqrt_floor(n, 0));
    } else {
        let n1: int = n - 1;
        lemma_sqrt_floor_exists(n1);
        let m = choose|m: int| is_sqrt_floor(n1, m);
        if n < (m + 1) * (m + 1) {
            assert(is_sqrt_floor(n, m));
        } else {
            assert(n == (m + 1) * (m + 1));
            assert((m + 1) * (m + 1) < (m + 2) * (m + 2)) by (nonlinear_arith)
                requires m >= 0;
            assert(is_sqrt_floor(n, m + 1));
        }
    }
}

/// The integer square root is unique, so `sqrt_floor` picks exactly it.
pub proof fn lemma_sqrt_floor_unique(n: int, m: int)
    requires
        is_sqrt_floor(n, m),
    ensures
        sqrt_floor(n) == m,
{
    let w = sqrt_floor(n);
    assert(is_sqrt_floor(n, w));
    if w < m {
        assert((w + 1) * (w + 1) <= m * m) by (nonlinear_arith)
            requires 0 <= w, w < m;
        assert(false);
    }
    if m < w {
        assert((m + 1) * (m + 1) <= w * w) by (nonlinear_arith)
            requires 0 <= m, m < w;
        assert(false);
    }
}

/// Basic bounds of `sqrt_floor` on a non-negative argument.
pub proof fn lemma_sqrt_floor_bounds(n: int)
    requires
        n >= 0,
    ensures
        0 <= sqrt_floor(n),
        sqrt_floor(n) * sqrt_floor(n) <= n,
        n < (sqrt_floor(n) + 1) * (sqrt_floor(n) + 1),
{
    lemma_sqrt_floor_exists(n);
    let m = choose|m: int| is_sqrt_floor(n, m);
    lemma_sqrt_floor_unique(n, m);
}

/// Euclidean remainder on `i64`, always in `[0, rhs)` for a positive modulus;
/// the replacement for a floating-point `fmod` that fixes up negative results.
pub fn rem_euclid_fx(x: i64, rhs: i64) -> (r: i64)
    requires
        rhs > 0,
    ensures
        r == x as int % rhs as int,
        0 <= r < rhs,
{
    let o: Option<i64> = x.checked_rem_euclid(rhs);
    proof {
        assert(0 <= (x as int) % (rhs as int));
        assert((x as int) % (rhs as int) < rhs as int);
    }
    o.unwrap()
}

/// Euclidean (floor, for a positive divisor) division on `i64`.
pub fn div_euclid_fx(x: i64, rhs: i64) -> (q: i64)
    requires
        rhs > 0,
    ensures
        q == x as int / rhs as int,
{
    let o: Option<i64> = x.checked_div_euclid(rhs);
    proof {
        lemma_div_quotient_in_word(x as int, rhs as int);
    }
    o.unwrap()
}

/// Euclidean (floor, for a positive divisor) division on `i128`, for the wide
/// intermediates of squared magnitudes.
pub fn div_euclid_wide(x: i128, rhs: i128) -> (q: i128)
    requires
        rhs > 0,
    ensures
        q == x as int / rhs as int,
{
    let o: Option<i128> = x.checked_div_euclid(rhs);
    proof {
        lemma_div_quotient_wide(x as int, rhs as int);
    }
    o.unwrap()
}

/// A quotient by a positive divisor keeps the dividend's sign and never
/// grows in magnitude, so it stays inside the word the dividend came from.
pub proof fn lemma_div_shrinks(x: int, d: int)
    requires
        d > 0,
    ensures
        x >= 0 ==> 0 <= x / d <= x,
        x < 0 ==> x <= x / d <= 0,
{
    vstd::arithmetic::div_mod::lemma_fundamental_div_mod(x, d);
    let q = x / d;
    let r = x % d;
    assert(0 <= r < d);
    assert(x == d * q + r);
    if x >= 0 {
        assert(q >= 0) by (nonlinear_arith)
            requires x == d * q + r, 0 <= r < d, x >= 0;
        assert(q <= x) by (nonlinear_arith)
            requires x == d * q + r, 0 <= r < d, d > 0, q >= 0;
    } else {
        assert(q < 0) by (nonlinear_arith)
            requires x == d * q + r, 0 <= r < d, x < 0;
        assert(x <= q) by (nonlinear_arith)
            requires x == d * q + r, 0 <= r < d, d > 0, q < 0;
    }
}

proof fn lemma_div_quotient_in_word(x: int, d: int)
    requires
        d > 0,
        i64::MIN <= x <= i64::MAX,
    ensures
        i64::MIN <= x / d <= i64::MAX,
{
    lemma_div_shrinks(x, d);
}

proof fn lemma_div_quotient_wide(x: int, d: int)
    requires
        d > 0,
        i128::MIN <= x <= i128::MAX,
    ensures
        i128::MIN <= x / d <= i128::MAX,
{
    lemma_div_shrinks(x, d);
}

/// Magnitudes multiply: a product of bounded factors is bounded by the
/// product of the bounds.
pub proof fn lemma_abs_mul_bound(a: int, b: int, ba: int, bb: int)
    requires
        -ba <= a <= ba,
        -bb <= b <= bb,
    ensures
        -(ba * bb) <= a * b <= ba * bb,
{
    assert(-(ba * bb) <= a * b <= ba * bb) by (nonlinear_arith)
        requires -ba <= a <= ba, -bb <= b <= bb;
}

/// Dividing out a bound that is a multiple of the divisor is exact.
pub proof fn lemma_div_mult_bound(a: int, d: int, m: int)
    requires
        d > 0,
        -(m * d) <= a <= m * d,
    ensures
        -m <= a / d <= m,
{
    vstd::arithmetic::div_mod::lemma_div_is_ordered(a, m * d, d);
    vstd::arithmetic::div_mod::lemma_div_is_ordered(-(m * d), a, d);
    vstd::arithmetic::div_mod::lemma_div_multiples_vanish(m, d);
    vstd::arithmetic::div_mod::lemma_div_multiples_vanish(-m, d);
    assert(m * d == d * m && -(m * d) == d * (-m)) by (nonlinear_arith);
}

/// A square below a square of a non-negative bound pins the base inside it.
pub proof fn lemma_le_sq(x: int, b: int)
    requires
        0 <= b,
        x * x <= b * b,
    ensures
        -b <= x <= b,
{
    assert(-b <= x <= b) by (nonlinear_arith)
        requires 0 <= b, x * x <= b * b;
}

/// A common positive factor of dividend and divisor cancels.
pub proof fn lemma_div_scale_cancel(x: int, c: int, s: int)
    requires
        c > 0,
        s > 0,
    ensures
        (x * s) / (c * s) == x / c,
{
    vstd::arithmetic::div_mod::lemma_fundamental_div_mod(x, c);
    let q = x / c;
    let r = x % c;
    assert(x == c * q + r);
    assert(x * s == q * (c * s) + r * s) by (nonlinear_arith)
        requires x == c * q + r;
    assert(0 <= r * s) by (nonlinear_arith)
        requires 0 <= r, s > 0;
    assert(r * s < c * s) by (nonlinear_arith)
        requires r < c, s > 0;
    vstd::arithmetic::div_mod::lemma_fundamental_div_mod_converse_div(x * s, c * s, q, r * s);
}

/// Integer square root by bisection: returns `sqrt_floor(n)`.
pub fn int_sqrt(n: u128) -> (r: u64)
    ensures
        r as int == sqrt_floor(n as int),
        (r * r) as int <= n as int,
        (n as int) < (r as int + 1) * (r as int + 1),
{
    let mut lo: u128 = 0;
    let mut hi: u128 = 0x1_0000_0000_0000_0000u128;
    proof {
        assert((0x1_0000_0000_0000_0000u128 as int) * (0x1_0000_0000_0000_0000u128 as int)
            > u128::MAX as int) by (nonlinear_arith);
    }
    while lo + 1 < hi
        invariant
            0 <= lo < hi,
            hi <= 0x1_0000_0000_0000_0000u128,
            (lo as int) * (lo as int) <= n as int,
            (n as int) < (hi as int) * (hi as int),
        decreases hi - lo,
    {
        let mid: u128 = lo + (hi - lo) / 2;
        proof {
            assert(lo < mid < hi);
            assert((mid as int) * (mid as int) <= (0xffff_ffff_ffff_ffffu64 as int)
                * (0xffff_ffff_ffff_ffffu64 as int) < u128::MAX as int) by (nonlinear_arith)
                requires 0 <= mid as int <= 0xffff_ffff_ffff_ffffu64 as int;
        }
        if mid * mid <= n {
            lo = mid;
        } else {
            hi = mid;
        }
    }
    proof {
        assert(hi == lo + 1);
        lemma_sqrt_floor_unique(n as int, lo as int);
        assert((lo as int) * (lo as int) <= u128::MAX as int);
        assert(lo <= 0xffff_ffff_ffff_ffffu64) by (nonlinear_arith)
            requires 0 <= lo, (lo as int) * (lo as int) <= n as int, n as int <= u128::MAX as int,
                hi <= 0x1_0000_0000_0000_0000u128, lo < hi;
    }
    let r: u64 = lo as u64;
    proof {
        assert((r * r) as int == (lo as int) * (lo as int));
    }
    r
}

} // verus!

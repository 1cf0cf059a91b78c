//! Fixed-point numbers.
//!
//! Lengths in world space and densities are integers that count millionths:
//! the integer `1_000_000` stands for `1.0`. A grid step, the distance
//! between two neighbouring samples, is one unit, so [`ONE`] millionths.

use vstd::prelude::*;

verus! {

/// The fixed-point number `1.0`.
pub const ONE: i64 = 1_000_000;

/// The square of [`ONE`].
pub const ONE_SQUARED: u128 = 1_000_000_000_000;

/// Whether `r` is the square root of `n`, rounded down.
pub open spec fn is_floor_sqrt(n: int, r: int) -> bool {
    0 <= r && r * r <= n < (r + 1) * (r + 1)
}

/// The square root of `n`, rounded down; zero for a negative `n`.
pub open spec fn floor_sqrt(n: int) -> int {
    if n < 0 {
        0
    } else {
        choose|r: int| is_floor_sqrt(n, r)
    }
}

/// Squaring keeps the order of non-negative numbers.
pub proof fn lemma_square_monotonic(a: int, b: int)
    requires
        0 <= a <= b,
    ensures
        a * a <= b * b,
        a < b ==> a * a < b * b,
{
    assert(a * a <= b * b) by (nonlinear_arith)
        requires
            0 <= a <= b,
    ;
    if a < b {
        assert(a * a < b * b) by (nonlinear_arith)
            requires
                0 <= a < b,
        ;
    }
}

/// A number has at most one rounded-down square root.
pub proof fn lemma_floor_sqrt_unique(n: int, r: int, s: int)
    requires
        is_floor_sqrt(n, r),
        is_floor_sqrt(n, s),
    ensures
        r == s,
{
    if r < s {
        lemma_square_monotonic(r + 1, s);
    } else if s < r {
        lemma_square_monotonic(s + 1, r);
    }
}

/// Any rounded-down square root of `n` is [`floor_sqrt`] of `n`.
pub proof fn lemma_floor_sqrt_is(n: int, r: int)
    requires
        is_floor_sqrt(n, r),
    ensures
        floor_sqrt(n) == r,
{
    assert(n >= 0) by (nonlinear_arith)
        requires
            r * r <= n,
    ;
    let s = choose|s: int| is_floor_sqrt(n, s);
    lemma_floor_sqrt_unique(n, r, s);
}

/// Every non-negative number has a rounded-down square root.
pub proof fn lemma_floor_sqrt_exists(n: int)
    requires
        0 <= n,
    ensures
        is_floor_sqrt(n, floor_sqrt(n)),
    decreases n,
{
    if n == 0 {
        assert(is_floor_sqrt(0, 0)) by (nonlinear_arith);
    } else {
        lemma_floor_sqrt_exists(n - 1);
        let r = floor_sqrt(n - 1);
        if (r + 1) * (r + 1) <= n {
            assert((r + 1) * (r + 1) == n);
            assert(n < (r + 2) * (r + 2)) by (nonlinear_arith)
                requires
                    (r + 1) * (r + 1) == n,
                    r >= 0,
            ;
            assert(is_floor_sqrt(n, r + 1));
        } else {
            assert(is_floor_sqrt(n, r));
        }
    }
}

/// The rounded-down root is below a bound exactly where the number is
/// below the square of the bound.
pub proof fn lemma_floor_sqrt_less(n: int, r: int, bound: int)
    requires
        is_floor_sqrt(n, r),
        0 <= bound,
    ensures
        r < bound <==> n < bound * bound,
{
    if r < bound {
        lemma_square_monotonic(r + 1, bound);
    } else {
        lemma_square_monotonic(bound, r);
    }
}

/// The square root of `n`, rounded down.
pub fn isqrt(n: u128) -> (r: u64)
    ensures
        is_floor_sqrt(n as int, r as int),
        r == floor_sqrt(n as int),
{
    let mut lo: u128 = 0;
    let mut hi: u128 = 0x1_0000_0000_0000_0000;
    assert(0x1_0000_0000_0000_0000int * 0x1_0000_0000_0000_0000int
        == 0x1_0000_0000_0000_0000_0000_0000_0000_0000int) by (nonlinear_arith);
    assert(0int * 0int == 0int) by (nonlinear_arith);
    while hi - lo > 1
        invariant
            lo < hi <= 0x1_0000_0000_0000_0000,
            lo * lo <= n,
            n < hi * hi,
        decreases hi - lo,
    {
        let mid = lo + (hi - lo) / 2;
        assert(mid * mid <= 0xffff_ffff_ffff_ffff * 0xffff_ffff_ffff_ffff) by (nonlinear_arith)
            requires
                0 <= mid <= 0xffff_ffff_ffff_ffff,
        ;
        if mid * mid <= n {
            lo = mid;
        } else {
            hi = mid;
        }
    }
    proof {
        lemma_floor_sqrt_is(n as int, lo as int);
    }
    lo as u64
}

/// `a * b / c`, rounded down, for a quotient `b / c` of at most one.
pub fn mul_ratio(a: u32, b: u64, c: u64) -> (r: u32)
    requires
        b <= c,
        c > 0,
    ensures
        r == (a * b) / (c as int),
{
    assert(0 <= a * b <= 0xffff_ffff * 0xffff_ffff_ffff_ffff) by (nonlinear_arith)
        requires
            0 <= a <= 0xffff_ffff,
            0 <= b <= 0xffff_ffff_ffff_ffff,
    ;
    let product: u128 = (a as u128) * (b as u128);
    assert(a * b <= a * c) by (nonlinear_arith)
        requires
            b <= c,
            a >= 0,
    ;
    assert((a * c) / (c as int) == a) by (nonlinear_arith)
        requires
            c > 0,
    ;
    assert((a * b) / (c as int) <= (a * c) / (c as int)) by {
        vstd::arithmetic::div_mod::lemma_div_is_ordered(a * b, a * c, c as int);
    }
    (product / (c as u128)) as u32
}

/// A part `a` of a whole `b`, scaled by `scale` and rounded down, lies
/// between zero and `scale`, and below `scale` for a proper part.
pub proof fn lemma_ratio_bounds(a: int, b: int, scale: int)
    requires
        0 <= a <= b,
        0 < b,
        0 <= scale,
    ensures
        0 <= (a * scale) / b <= scale,
        a < b && 0 < scale ==> (a * scale) / b < scale,
{
    let q = (a * scale) / b;
    assert(0 <= a * scale <= b * scale) by (nonlinear_arith)
        requires
            0 <= a <= b,
            0 <= scale,
    ;
    vstd::arithmetic::div_mod::lemma_fundamental_div_mod(a * scale, b);
    vstd::arithmetic::div_mod::lemma_mod_bound(a * scale, b);
    assert(0 <= q <= scale) by (nonlinear_arith)
        requires
            0 <= a * scale <= b * scale,
            a * scale == b * q + (a * scale) % b,
            0 <= (a * scale) % b < b,
            0 < b,
    ;
    if a < b && 0 < scale {
        assert(a * scale < b * scale) by (nonlinear_arith)
            requires
                0 <= a < b,
                0 < scale,
        ;
        assert(q < scale) by (nonlinear_arith)
            requires
                a * scale < b * scale,
                a * scale == b * q + (a * scale) % b,
                0 <= (a * scale) % b < b,
                0 < b,
        ;
    }
}

} // verus!

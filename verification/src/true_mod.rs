//! Floored division and its remainder.

use vstd::prelude::*;

verus! {

/// The remainder of floored division: the value `r` with `a == b * q + r`
/// for `q` the quotient rounded towards negative infinity. It is zero or
/// has the sign of `b`.
pub open spec fn floor_mod(a: int, b: int) -> int {
    if b > 0 {
        a % b
    } else {
        -((-a) % (-b))
    }
}

/// The quotient of floored division, rounded towards negative infinity.
pub open spec fn floor_div(a: int, b: int) -> int {
    if b > 0 {
        a / b
    } else {
        (-a) / (-b)
    }
}

/// Floored division and its remainder make up the dividend, and the
/// remainder lies between zero and the divisor.
pub proof fn lemma_floor_div_mod(a: int, b: int)
    requires
        b != 0,
    ensures
        a == b * floor_div(a, b) + floor_mod(a, b),
        b > 0 ==> 0 <= floor_mod(a, b) < b,
        b < 0 ==> b < floor_mod(a, b) <= 0,
{
    if b > 0 {
        vstd::arithmetic::div_mod::lemma_fundamental_div_mod(a, b);
        vstd::arithmetic::div_mod::lemma_mod_bound(a, b);
    } else {
        vstd::arithmetic::div_mod::lemma_fundamental_div_mod(-a, -b);
        vstd::arithmetic::div_mod::lemma_mod_bound(-a, -b);
        assert(b * ((-a) / (-b)) == -((-b) * ((-a) / (-b)))) by (nonlinear_arith);
    }
}

/// The remainder of `a` by `b` that takes the sign of the divisor, so that
/// negative coordinates wrap into `0..b` for a positive `b`.
pub fn true_mod(a: i64, b: i64) -> (r: i64)
    requires
        b != 0,
    ensures
        r == floor_mod(a as int, b as int),
{
    proof {
        lemma_floor_div_mod(a as int, b as int);
    }
    if b > 0 {
        let r = a.checked_rem_euclid(b);
        r.unwrap()
    } else {
        let wide_a: i128 = -(a as i128);
        let wide_b: i128 = -(b as i128);
        let r = wide_a.checked_rem_euclid(wide_b);
        let m: i128 = r.unwrap();
        (-m) as i64
    }
}

} // verus!

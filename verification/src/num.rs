//! Integer helpers shared by the fixed-point computations: Euclidean
//! division and remainder on `i128`, and an integer square root.

use vstd::arithmetic::div_mod::{lemma_fundamental_div_mod, lemma_mod_division_less_than_divisor};
use vstd::prelude::*;

verus! {

/// Magnitude bound under which `div_euclid` stays far from the `i128` range
/// ends; every dividend in this crate is far below it.
pub const DIV_ARG_BOUND: i128 = 0x1000_0000_0000_0000_0000_0000_0000_0000;

/// Euclidean (floor, for a positive divisor) division on `i128`, matching
/// the `/` of specifications exactly.
pub fn div_e(a: i128, b: i128) -> (q: i128)
    requires
        0 < b,
        -DIV_ARG_BOUND <= a <= DIV_ARG_BOUND,
    ensures
        q == a as int / b as int,
{
    proof {
        lemma_fundamental_div_mod(a as int, b as int);
        lemma_mod_division_less_than_divisor(a as int, b as int);
        let q = a as int / b as int;
        let r = a as int % b as int;
        assert(b * q == a - r);
        assert(-DIV_ARG_BOUND <= q <= DIV_ARG_BOUND) by (nonlinear_arith)
            requires
                b >= 1,
                b * q == a - r,
                0 <= r < b,
                -DIV_ARG_BOUND <= a <= DIV_ARG_BOUND,
        ;
    }
    match a.checked_div_euclid(b) {
        Some(q) => q,
        None => 0,
    }
}

/// Euclidean remainder on `i128`, matching the `%` of specifications
/// exactly; always in `[0, b)`.
pub fn mod_e(a: i128, b: i128) -> (r: i128)
    requires
        0 < b,
    ensures
        r == a as int % b as int,
        0 <= r < b,
{
    proof {
        lemma_mod_division_less_than_divisor(a as int, b as int);
    }
    match a.checked_rem_euclid(b) {
        Some(r) => r,
        None => 0,
    }
}

/// A quotient lies within `(-m, m)` whenever the dividend lies within
/// `(-m * b, m * b)`.
pub proof fn lemma_div_range(a: int, b: int, m: int)
    requires
        0 < b,
        0 < m,
        -(m * b) <= a < m * b,
    ensures
        -m <= a / b < m,
{
    lemma_fundamental_div_mod(a, b);
    lemma_mod_division_less_than_divisor(a, b);
    assert(-m <= a / b < m) by (nonlinear_arith)
        requires
            0 < b,
            0 < m,
            -(m * b) <= a < m * b,
            b * (a / b) == a - a % b,
            0 <= a % b < b,
    ;
}

/// Floor of the square root: the unique `r` with `r * r <= n < (r + 1) * (r + 1)`.
pub fn isqrt(n: u128) -> (r: u64)
    ensures
        r * r <= n < (r + 1) * (r + 1),
{
    let mut lo: u64 = 0;
    let mut hi: u64 = u64::MAX;
    proof {
        assert((u64::MAX as int + 1) * (u64::MAX as int + 1) > (u128::MAX as int))
            by (nonlinear_arith);
    }
    while lo < hi
        invariant
            lo <= hi,
            lo * lo <= n,
            n < (hi + 1) * (hi + 1),
        decreases hi - lo,
    {
        let mid: u64 = hi - (hi - lo) / 2;
        assert(lo < mid <= hi);
        proof {
            assert((mid as int) * (mid as int) <= (u64::MAX as int) * (u64::MAX as int))
                by (nonlinear_arith)
                requires
                    0 <= mid <= u64::MAX,
            ;
            assert((u64::MAX as int) * (u64::MAX as int) < (u128::MAX as int)) by (nonlinear_arith);
        }
        let sq: u128 = (mid as u128) * (mid as u128);
        if sq <= n {
            lo = mid;
        } else {
            hi = mid - 1;
        }
    }
    lo
}

} // verus!

//! Fixed-point scalars.
//!
//! Every coordinate, matrix entry and color channel in this crate is an
//! `i64` (or `u32` for channels) carrying a real value scaled by `SCALE`,
//! so that geometry is exact, hashable data: two draws that describe the
//! same shape produce bit-identical values, which is what the shape cache
//! keys on.

use vstd::prelude::*;

verus! {

/// One whole unit in fixed-point representation.
pub const SCALE: i64 = 65536;

/// The largest magnitude a coordinate or matrix entry may take.  Results
/// that would exceed it saturate, so no operation in the crate overflows.
pub const LIMIT: i64 = 0x100_0000_0000_0000;

/// Truncating division (rounding toward zero), for a positive divisor.
pub open spec fn tdiv(a: int, d: int) -> int
    recommends
        d > 0,
{
    if a >= 0 {
        a / d
    } else {
        -((-a) / d)
    }
}

/// Saturate `v` into the band `[-bound, bound]`.
pub open spec fn sat(v: int, bound: int) -> int
    recommends
        bound >= 0,
{
    if v > bound {
        bound
    } else if v < -bound {
        -bound
    } else {
        v
    }
}

/// The scaled product of two fixed-point values: `a * b / SCALE`,
/// truncated toward zero and saturated at `LIMIT`.
pub open spec fn fx_mul(a: int, b: int) -> int {
    sat(tdiv(a * b, SCALE as int), LIMIT as int)
}

/// A product of bounded factors is bounded by the product of the bounds.
pub proof fn lemma_mul_bound(a: int, b: int, am: int, bm: int)
    requires
        -am <= a <= am,
        -bm <= b <= bm,
        0 <= am,
        0 <= bm,
    ensures
        -(am * bm) <= a * b <= am * bm,
{
    assert(-(am * bm) <= a * b <= am * bm) by (nonlinear_arith)
        requires
            -am <= a <= am,
            -bm <= b <= bm,
            0 <= am,
            0 <= bm,
    ;
}

/// Truncating division by a positive divisor keeps a value inside any
/// symmetric band around zero, and never flips its sign.
pub proof fn lemma_tdiv_bound(a: int, d: int, m: int)
    requires
        d >= 1,
        -m <= a <= m,
    ensures
        -m <= tdiv(a, d) <= m,
        a >= 0 ==> tdiv(a, d) >= 0,
        a < 0 ==> tdiv(a, d) <= 0,
{
    if a >= 0 {
        vstd::arithmetic::div_mod::lemma_div_pos_is_pos(a, d);
        vstd::arithmetic::div_mod::lemma_div_nonincreasing(a, d);
    } else {
        vstd::arithmetic::div_mod::lemma_div_pos_is_pos(-a, d);
        vstd::arithmetic::div_mod::lemma_div_nonincreasing(-a, d);
    }
}

/// The full product of two machine words, computed without overflow.
pub fn wide_mul(a: i64, b: i64) -> (r: i128)
    ensures
        r == a as int * b as int,
{
    proof {
        let m: int = 0x8000_0000_0000_0000;
        assert(-m * m <= a as int * b as int && a as int * b as int <= m * m)
            by (nonlinear_arith)
            requires
                -m <= a as int,
                (a as int) < m,
                -m <= b as int,
                (b as int) < m,
                m == 0x8000_0000_0000_0000,
        ;
    }
    (a as i128) * (b as i128)
}

/// Divide a wide intermediate by a positive divisor, truncating toward
/// zero, then saturate the quotient into `[-bound, bound]`.
pub fn sat_div_wide(p: i128, d: i64, bound: i64) -> (r: i64)
    requires
        p > i128::MIN,
        d > 0,
        bound >= 0,
    ensures
        r == sat(tdiv(p as int, d as int), bound as int),
{
    let q: i128 = p / (d as i128);
    if q > bound as i128 {
        bound
    } else if q < -(bound as i128) {
        -bound
    } else {
        q as i64
    }
}

/// `a * b / d`, truncated toward zero and saturated at `bound`.
pub fn mul_div_sat(a: i64, b: i64, d: i64, bound: i64) -> (r: i64)
    requires
        d > 0,
        bound >= 0,
    ensures
        r == sat(tdiv(a as int * b as int, d as int), bound as int),
{
    let p = wide_mul(a, b);
    proof {
        assert(p > i128::MIN) by {
            assert(a as int * b as int >= -0x8000_0000_0000_0000 * 0x8000_0000_0000_0000)
                by (nonlinear_arith)
                requires
                    -0x8000_0000_0000_0000 <= a as int,
                    a as int <= 0x7fff_ffff_ffff_ffff,
                    -0x8000_0000_0000_0000 <= b as int,
                    b as int <= 0x7fff_ffff_ffff_ffff,
            ;
        }
    }
    sat_div_wide(p, d, bound)
}

/// The scaled product of two fixed-point values (see [`fx_mul`]).
pub fn fx_mul_exec(a: i64, b: i64) -> (r: i64)
    ensures
        r == fx_mul(a as int, b as int),
{
    mul_div_sat(a, b, SCALE, LIMIT)
}

/// The integer square root: the largest `r` with `r * r <= n`.
pub open spec fn is_isqrt(n: int, r: int) -> bool {
    &&& 0 <= r
    &&& r * r <= n
    &&& (r + 1) * (r + 1) > n
}

/// Integer square root by bisection.
pub fn isqrt(n: u128) -> (r: u64)
    ensures
        is_isqrt(n as int, r as int),
{
    let mut lo: u128 = 0;
    let mut hi: u128 = 0xffff_ffff_ffff_ffff;
    proof {
        assert((hi as int + 1) * (hi as int + 1) > n as int) by (nonlinear_arith)
            requires
                hi == 0xffff_ffff_ffff_ffffu128,
                n <= u128::MAX,
        ;
    }
    while lo < hi
        invariant
            lo <= hi,
            hi <= 0xffff_ffff_ffff_ffff,
            lo as int * lo as int <= n as int,
            (hi as int + 1) * (hi as int + 1) > n as int,
        decreases hi - lo,
    {
        let mid: u128 = lo + (hi - lo + 1) / 2;
        proof {
            assert(mid as int * mid as int <= u128::MAX as int) by (nonlinear_arith)
                requires
                    0 <= mid as int <= 0xffff_ffff_ffff_ffffu128,
            ;
        }
        if mid * mid <= n {
            lo = mid;
        } else {
            hi = mid - 1;
        }
    }
    lo as u64
}

} // verus!

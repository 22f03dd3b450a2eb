//! Fixed-point arithmetic for the generation core.
//!
//! A value of `v` fixed-point units stands for the real number `v / SCALE`.
//! Every noise sample is clamped to `[-VAL_MAX, VAL_MAX]` and every sampling
//! coordinate to `[-COORD_MAX, COORD_MAX]`, which keeps all downstream
//! arithmetic comfortably inside `i64`.

use vstd::prelude::*;

verus! {

/// Fixed-point units per world-height unit.
pub const SCALE: i64 = 1024;

/// Largest magnitude a noise sample can take (2048 world units).
pub const VAL_MAX: i64 = 2097152;

/// Largest magnitude a sampling coordinate can take, in fixed-point units.
pub const COORD_MAX: i64 = 17592186044416;

/// Clamp an integer into `[-bound, bound]`.
pub open spec fn clamp_spec(v: int, bound: int) -> int {
    if v < -bound {
        -bound
    } else if v > bound {
        bound
    } else {
        v
    }
}

/// Truncating division (round toward zero), for a positive divisor.
pub open spec fn tdiv(a: int, d: int) -> int {
    if a >= 0 {
        a / d
    } else {
        -((-a) / d)
    }
}

/// Fixed-point product: `(a * b) / SCALE`, truncated, clamped to `VAL_MAX`.
pub open spec fn fp_mul_spec(a: int, b: int) -> int {
    clamp_spec(tdiv(a * b, SCALE as int), VAL_MAX as int)
}

/// Clamp a (possibly wide) value into `[-bound, bound]`.
pub fn clamp_i128(v: i128, bound: i64) -> (r: i64)
    requires
        0 < bound,
    ensures
        r == clamp_spec(v as int, bound as int),
{
    if v < -(bound as i128) {
        -bound
    } else if v > bound as i128 {
        bound
    } else {
        v as i64
    }
}

/// Truncating division of a wide value by a positive divisor.
pub fn tdiv_i128(a: i128, d: i64) -> (r: i128)
    requires
        0 < d,
        -0x4000_0000_0000_0000_0000_0000_0000_0000 < a,
    ensures
        r == tdiv(a as int, d as int),
{
    if a >= 0 {
        let q: u128 = (a as u128) / (d as u128);
        q as i128
    } else {
        let n: u128 = (-a) as u128;
        let q: u128 = n / (d as u128);
        -(q as i128)
    }
}

/// Fixed-point multiplication, exact to [`fp_mul_spec`].
pub fn fp_mul(a: i64, b: i64) -> (r: i64)
    ensures
        r == fp_mul_spec(a as int, b as int),
{
    proof {
        assert((a as int) * (b as int) <= 0x4000_0000_0000_0000_0000_0000_0000_0000
            && -0x4000_0000_0000_0000_0000_0000_0000_0000 < (a as int) * (b as int))
            by (nonlinear_arith)
            requires
                -0x8000_0000_0000_0000 <= a as int <= 0x7FFF_FFFF_FFFF_FFFF,
                -0x8000_0000_0000_0000 <= b as int <= 0x7FFF_FFFF_FFFF_FFFF,
        ;
    }
    let p: i128 = (a as i128) * (b as i128);
    let q: i128 = tdiv_i128(p, SCALE);
    clamp_i128(q, VAL_MAX)
}

} // verus!

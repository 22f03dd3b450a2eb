//! Deterministic 2D scalar fields.
//!
//! A [`NoiseField`] is a tree of combinators built once at configuration
//! time: a fractal value-noise primitive, a coordinate-perturbing
//! turbulence decorator, and algebraic nodes (add, multiply, integer
//! power, constant). Sampling is a pure function of the tree and the
//! fixed-point coordinates: identical inputs always give identical
//! outputs, and every sample lies in `[-VAL_MAX, VAL_MAX]`.

use vstd::prelude::*;
use crate::fixed::{
    SCALE, VAL_MAX, COORD_MAX, clamp_spec, tdiv, fp_mul_spec, clamp_i128, tdiv_i128, fp_mul,
};

verus! {

/// Seed perturbation constant for deriving independent lattices.
pub const SEED_MIX_X: u64 = 0x9E3779B97F4A7C15;

/// Seed perturbation constant, distinct from `SEED_MIX_X`.
pub const SEED_MIX_Z: u64 = 0xC2B2AE3D27D4EB4F;

/// A composable, deterministic scalar field over 2D fixed-point coordinates.
pub enum NoiseField {
    /// The same value everywhere (fixed-point).
    Constant(i64),
    /// Octaves of lattice value noise; each octave doubles the frequency
    /// and scales its contribution by `persistence` (fixed-point).
    Fractal { seed: u64, frequency: i64, octaves: u8, persistence: i64 },
    /// Samples `source` at coordinates displaced by two independent
    /// noise lattices scaled by `power`.
    Turbulence { source: Box<NoiseField>, seed: u64, frequency: i64, power: i64 },
    /// Pointwise sum of two fields.
    Add(Box<NoiseField>, Box<NoiseField>),
    /// Pointwise fixed-point product of two fields.
    Multiply(Box<NoiseField>, Box<NoiseField>),
    /// The field raised to a small integer exponent, pointwise.
    Power(Box<NoiseField>, u8),
}

/// One round of xor-shift bit mixing; the primitive behind the lattice hash.
pub open spec fn mix64_spec(h: u64) -> u64 {
    let a = h ^ (h >> 33);
    let b = a ^ (a << 25);
    b ^ (b >> 17)
}

/// The pseudo-random lattice value at integer cell `(ix, iz)`, in `[-SCALE, SCALE]`.
pub open spec fn cell_value_spec(seed: u64, ix: u64, iz: u64) -> int {
    let h = mix64_spec(seed ^ mix64_spec(ix ^ SEED_MIX_X) ^ mix64_spec(iz ^ SEED_MIX_Z));
    (h % 2049) - SCALE
}

/// Linear interpolation from `a` to `b` by `t / SCALE`, clamped to `[-SCALE, SCALE]`.
pub open spec fn lerp_spec(a: int, b: int, t: int) -> int {
    clamp_spec(a + tdiv((b - a) * t, SCALE as int), SCALE as int)
}

/// Bilinearly interpolated lattice value noise at fixed-point `(x, z)`,
/// in `[-SCALE, SCALE]`.
pub open spec fn value_noise_spec(seed: u64, x: int, z: int) -> int {
    let qx = x / (SCALE as int);
    let rx = x % (SCALE as int);
    let qz = z / (SCALE as int);
    let rz = z % (SCALE as int);
    let h00 = cell_value_spec(seed, qx as u64, qz as u64);
    let h10 = cell_value_spec(seed, (qx + 1) as u64, qz as u64);
    let h01 = cell_value_spec(seed, qx as u64, (qz + 1) as u64);
    let h11 = cell_value_spec(seed, (qx + 1) as u64, (qz + 1) as u64);
    lerp_spec(lerp_spec(h00, h10, rx), lerp_spec(h01, h11, rx), rz)
}

/// Fixed-point product used for coordinate scaling: clamped to the wider
/// coordinate range rather than the sample range.
pub open spec fn coord_mul_spec(a: int, b: int) -> int {
    clamp_spec(tdiv(a * b, SCALE as int), COORD_MAX as int)
}

/// The seed of the next fractal octave.
pub open spec fn next_seed_spec(seed: u64) -> u64 {
    mix64_spec(seed ^ SEED_MIX_X)
}

/// The frequency of the next fractal octave (doubled, kept in coordinate range).
pub open spec fn next_freq_spec(f: int) -> int {
    2 * clamp_spec(f, COORD_MAX as int)
}

/// Octave sum of value noise: octave `i` contributes with weight
/// `persistence^i` and frequency `frequency * 2^i`.
pub open spec fn fractal_spec(seed: u64, frequency: int, octaves: u8, persistence: int, x: int, z: int) -> int
    decreases octaves,
{
    if octaves == 0 {
        0
    } else {
        let v = value_noise_spec(seed, coord_mul_spec(x, frequency), coord_mul_spec(z, frequency));
        let rest = fractal_spec(
            next_seed_spec(seed),
            next_freq_spec(frequency),
            (octaves - 1) as u8,
            persistence,
            x,
            z,
        );
        clamp_spec(v + fp_mul_spec(persistence, rest), VAL_MAX as int)
    }
}

/// `base^exp` in fixed point (`SCALE` is one), clamped like any sample.
pub open spec fn fp_pow_spec(base: int, exp: u8) -> int
    decreases exp,
{
    if exp == 0 {
        SCALE as int
    } else {
        fp_mul_spec(base, fp_pow_spec(base, (exp - 1) as u8))
    }
}

impl NoiseField {
    /// What sampling this field at fixed-point `(x, z)` returns.
    pub open spec fn sample_spec(self, x: int, z: int) -> int
        decreases self,
    {
        let v = match self {
            NoiseField::Constant(c) => c as int,
            NoiseField::Fractal { seed, frequency, octaves, persistence } => fractal_spec(
                seed,
                frequency as int,
                octaves,
                persistence as int,
                x,
                z,
            ),
            NoiseField::Turbulence { source, seed, frequency, power } => {
                let dx = fp_mul_spec(
                    power as int,
                    value_noise_spec(seed, coord_mul_spec(x, frequency as int), coord_mul_spec(z, frequency as int)),
                );
                let dz = fp_mul_spec(
                    power as int,
                    value_noise_spec(
                        next_seed_spec(seed),
                        coord_mul_spec(x, frequency as int),
                        coord_mul_spec(z, frequency as int),
                    ),
                );
                source.sample_spec(
                    clamp_spec(x + dx, COORD_MAX as int),
                    clamp_spec(z + dz, COORD_MAX as int),
                )
            },
            NoiseField::Add(a, b) => a.sample_spec(x, z) + b.sample_spec(x, z),
            NoiseField::Multiply(a, b) => fp_mul_spec(a.sample_spec(x, z), b.sample_spec(x, z)),
            NoiseField::Power(a, n) => fp_pow_spec(a.sample_spec(x, z), n),
        };
        clamp_spec(v, VAL_MAX as int)
    }

    /// Sample the field at fixed-point coordinates `(x, z)`.
    ///
    /// Deterministic: the result is exactly [`NoiseField::sample_spec`],
    /// so two samples at the same coordinates are always identical.
    pub fn sample(&self, x: i64, z: i64) -> (r: i64)
        ensures
            r == self.sample_spec(x as int, z as int),
            -VAL_MAX <= r <= VAL_MAX,
        decreases *self,
    {
        let v: i128 = match self {
            NoiseField::Constant(c) => *c as i128,
            NoiseField::Fractal { seed, frequency, octaves, persistence } => fractal(
                *seed,
                *frequency,
                *octaves,
                *persistence,
                x,
                z,
            ) as i128,
            NoiseField::Turbulence { source, seed, frequency, power } => {
                let cx = coord_mul(x, *frequency);
                let cz = coord_mul(z, *frequency);
                let dx = fp_mul(*power, value_noise(*seed, cx, cz));
                let dz = fp_mul(*power, value_noise(mix64(*seed ^ SEED_MIX_X), cx, cz));
                let px = clamp_i128(x as i128 + dx as i128, COORD_MAX);
                let pz = clamp_i128(z as i128 + dz as i128, COORD_MAX);
                source.sample(px, pz) as i128
            },
            NoiseField::Add(a, b) => a.sample(x, z) as i128 + b.sample(x, z) as i128,
            NoiseField::Multiply(a, b) => fp_mul(a.sample(x, z), b.sample(x, z)) as i128,
            NoiseField::Power(a, n) => fp_pow(a.sample(x, z), *n) as i128,
        };
        clamp_i128(v, VAL_MAX)
    }
}

/// One round of xor-shift bit mixing.
fn mix64(h: u64) -> (r: u64)
    ensures
        r == mix64_spec(h),
{
    let a = h ^ (h >> 33);
    let b = a ^ (a << 25);
    b ^ (b >> 17)
}

/// The lattice value at integer cell `(ix, iz)`.
fn cell_value(seed: u64, ix: u64, iz: u64) -> (r: i64)
    ensures
        r == cell_value_spec(seed, ix, iz),
        -SCALE <= r <= SCALE,
{
    let h = mix64(seed ^ mix64(ix ^ SEED_MIX_X) ^ mix64(iz ^ SEED_MIX_Z));
    (h % 2049) as i64 - SCALE
}

/// Linear interpolation from `a` to `b` by `t / SCALE`.
fn lerp(a: i64, b: i64, t: i64) -> (r: i64)
    requires
        -SCALE <= a <= SCALE,
        -SCALE <= b <= SCALE,
        0 <= t < SCALE,
    ensures
        r == lerp_spec(a as int, b as int, t as int),
        -SCALE <= r <= SCALE,
{
    proof {
        assert(-0x400000 <= (b - a) * t <= 0x400000) by (nonlinear_arith)
            requires
                -2 * SCALE <= b - a <= 2 * SCALE,
                0 <= t < SCALE,
                SCALE == 1024,
        ;
    }
    let num: i128 = ((b - a) as i128) * (t as i128);
    let q = tdiv_i128(num, SCALE);
    clamp_i128(a as i128 + q, SCALE)
}

/// Euclidean quotient and remainder of `a` by `SCALE`.
fn floor_div_scale(a: i64) -> (qr: (i64, i64))
    requires
        -COORD_MAX <= a <= COORD_MAX,
    ensures
        qr.0 == (a as int) / (SCALE as int),
        qr.1 == (a as int) % (SCALE as int),
        0 <= qr.1 < SCALE,
{
    if a >= 0 {
        let q = ((a as u64) / (SCALE as u64)) as i64;
        let r = ((a as u64) % (SCALE as u64)) as i64;
        (q, r)
    } else {
        let n = (-a) as u64;
        let q0 = (n / (SCALE as u64)) as i64;
        let r0 = (n % (SCALE as u64)) as i64;
        proof {
            vstd::arithmetic::div_mod::lemma_fundamental_div_mod(n as int, SCALE as int);
        }
        if r0 == 0 {
            proof {
                vstd::arithmetic::div_mod::lemma_fundamental_div_mod_converse(
                    a as int,
                    SCALE as int,
                    -q0 as int,
                    0,
                );
            }
            (-q0, 0)
        } else {
            proof {
                vstd::arithmetic::div_mod::lemma_fundamental_div_mod_converse(
                    a as int,
                    SCALE as int,
                    (-q0 - 1) as int,
                    (SCALE - r0) as int,
                );
            }
            (-q0 - 1, SCALE - r0)
        }
    }
}

/// Bilinearly interpolated lattice value noise at fixed-point `(x, z)`.
fn value_noise(seed: u64, x: i64, z: i64) -> (r: i64)
    requires
        -COORD_MAX <= x <= COORD_MAX,
        -COORD_MAX <= z <= COORD_MAX,
    ensures
        r == value_noise_spec(seed, x as int, z as int),
        -SCALE <= r <= SCALE,
{
    let (qx, rx) = floor_div_scale(x);
    let (qz, rz) = floor_div_scale(z);
    let h00 = cell_value(seed, qx as u64, qz as u64);
    let h10 = cell_value(seed, (qx + 1) as u64, qz as u64);
    let h01 = cell_value(seed, qx as u64, (qz + 1) as u64);
    let h11 = cell_value(seed, (qx + 1) as u64, (qz + 1) as u64);
    lerp(lerp(h00, h10, rx), lerp(h01, h11, rx), rz)
}

/// Coordinate scaling: fixed-point product clamped to the coordinate range.
fn coord_mul(a: i64, b: i64) -> (r: i64)
    ensures
        r == coord_mul_spec(a as int, b as int),
        -COORD_MAX <= r <= COORD_MAX,
{
    proof {
        assert((a as int) * (b as int) <= 0x4000_0000_0000_0000_0000_0000_0000_0000
            && -0x4000_0000_0000_0000_0000_0000_0000_0000 < (a as int) * (b as int))
            by (nonlinear_arith)
            requires
                -0x8000_0000_0000_0000 <= a as int <= 0x7FFF_FFFF_FFFF_FFFF,
                -0x8000_0000_0000_0000 <= b as int <= 0x7FFF_FFFF_FFFF_FFFF,
        ;
    }
    let p: i128 = (a as i128) * (b as i128);
    let q: i128 = tdiv_i128(p, SCALE);
    clamp_i128(q, COORD_MAX)
}

/// Octave sum of value noise.
fn fractal(seed: u64, frequency: i64, octaves: u8, persistence: i64, x: i64, z: i64) -> (r: i64)
    ensures
        r == fractal_spec(seed, frequency as int, octaves, persistence as int, x as int, z as int),
        -VAL_MAX <= r <= VAL_MAX,
    decreases octaves,
{
    if octaves == 0 {
        0
    } else {
        let cx = coord_mul(x, frequency);
        let cz = coord_mul(z, frequency);
        let v = value_noise(seed, cx, cz);
        let fc = clamp_i128(frequency as i128, COORD_MAX);
        let rest = fractal(mix64(seed ^ SEED_MIX_X), 2 * fc, octaves - 1, persistence, x, z);
        clamp_i128(v as i128 + fp_mul(persistence, rest) as i128, VAL_MAX)
    }
}

/// `base^exp` in fixed point.
fn fp_pow(base: i64, exp: u8) -> (r: i64)
    ensures
        r == fp_pow_spec(base as int, exp),
        -VAL_MAX <= r <= VAL_MAX,
    decreases exp,
{
    if exp == 0 {
        SCALE
    } else {
        fp_mul(base, fp_pow(base, exp - 1))
    }
}

} // verus!

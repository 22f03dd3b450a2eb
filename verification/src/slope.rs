//! Local terrain steepness and its per-context cache.
//!
//! The slope at a world coordinate is the maximum absolute difference
//! between the base field's sample there and its samples at a set of
//! neighbor offsets chosen by [`SlopeMode`]. Results are memoized in a
//! map keyed by the packed coordinate pair; a repeated query returns the
//! identical cached value and leaves the cache unchanged.

use vstd::prelude::*;
use std::collections::HashMap;
use crate::fixed::{SCALE, VAL_MAX};
use crate::field::NoiseField;

verus! {

broadcast use vstd::std_specs::hash::group_hash_axioms;

/// Which neighborhood the slope scan samples.
#[allow(non_camel_case_types)]
#[derive(Clone, Copy, Debug)]
pub enum SlopeMode {
    /// All 8 surrounding grid cells.
    FULL,
    /// The 4 axis-adjacent cells.
    VonNeumann,
    /// The 4 corner cells only.
    MVonNeumann,
}

/// The neighbor offsets of each mode, in scan order.
pub open spec fn offsets_spec(mode: SlopeMode) -> Seq<(i32, i32)> {
    match mode {
        SlopeMode::FULL => seq![
            (-1i32, -1i32),
            (-1i32, 0i32),
            (-1i32, 1i32),
            (0i32, -1i32),
            (0i32, 1i32),
            (1i32, -1i32),
            (1i32, 0i32),
            (1i32, 1i32),
        ],
        SlopeMode::VonNeumann => seq![(-1i32, 0i32), (0i32, -1i32), (0i32, 1i32), (1i32, 0i32)],
        SlopeMode::MVonNeumann => seq![(-1i32, -1i32), (-1i32, 1i32), (1i32, -1i32), (1i32, 1i32)],
    }
}

impl SlopeMode {
    /// The neighbor offsets scanned by this mode.
    pub fn offsets(&self) -> (r: Vec<(i32, i32)>)
        ensures
            r@ == offsets_spec(*self),
    {
        let mut v: Vec<(i32, i32)> = Vec::new();
        match self {
            SlopeMode::FULL => {
                v.push((-1, -1));
                v.push((-1, 0));
                v.push((-1, 1));
                v.push((0, -1));
                v.push((0, 1));
                v.push((1, -1));
                v.push((1, 0));
                v.push((1, 1));
            },
            SlopeMode::VonNeumann => {
                v.push((-1, 0));
                v.push((0, -1));
                v.push((0, 1));
                v.push((1, 0));
            },
            SlopeMode::MVonNeumann => {
                v.push((-1, -1));
                v.push((-1, 1));
                v.push((1, -1));
                v.push((1, 1));
            },
        }
        proof {
            assert(v@ =~= offsets_spec(*self));
        }
        v
    }
}

/// The base field's sample at integer world coordinates.
pub open spec fn world_sample_spec(nf: NoiseField, x: int, z: int) -> int {
    nf.sample_spec(x * SCALE, z * SCALE)
}

/// Maximum absolute sample difference over the first `n` offsets.
pub open spec fn slope_prefix_spec(
    nf: NoiseField,
    center: int,
    offs: Seq<(i32, i32)>,
    x: int,
    z: int,
    n: int,
) -> int
    decreases n,
{
    if n <= 0 {
        0
    } else {
        let rest = slope_prefix_spec(nf, center, offs, x, z, n - 1);
        let v = world_sample_spec(nf, x + offs[n - 1].0, z + offs[n - 1].1);
        let d = if v - center >= 0 {
            v - center
        } else {
            center - v
        };
        if d > rest {
            d
        } else {
            rest
        }
    }
}

/// The slope at world `(x, z)`: the maximum absolute difference between
/// the center sample and each neighbor sample of the active mode.
pub open spec fn slope_spec(nf: NoiseField, mode: SlopeMode, x: int, z: int) -> int {
    let offs = offsets_spec(mode);
    slope_prefix_spec(nf, world_sample_spec(nf, x, z), offs, x, z, offs.len() as int)
}

/// The slope prefix maximum is non-negative and bounded by the sample range.
pub proof fn lemma_slope_prefix_bounds(
    nf: NoiseField,
    center: int,
    offs: Seq<(i32, i32)>,
    x: int,
    z: int,
    n: int,
)
    requires
        -VAL_MAX <= center <= VAL_MAX,
    ensures
        0 <= slope_prefix_spec(nf, center, offs, x, z, n) <= 2 * VAL_MAX,
    decreases n,
{
    if n > 0 {
        lemma_slope_prefix_bounds(nf, center, offs, x, z, n - 1);
    }
}

/// The cache key that packs a world coordinate pair.
pub open spec fn cache_key_spec(x: i32, z: i32) -> u64 {
    ((x as u32 as u64) << 32) | (z as u32 as u64)
}

/// The x coordinate a cache key stands for.
pub open spec fn key_x_spec(k: u64) -> int {
    ((k >> 32) as u32 as i32) as int
}

/// The z coordinate a cache key stands for.
pub open spec fn key_z_spec(k: u64) -> int {
    (k as u32 as i32) as int
}

/// Packing a coordinate pair into a key loses nothing.
pub proof fn lemma_cache_key(x: i32, z: i32)
    ensures
        key_x_spec(cache_key_spec(x, z)) == x as int,
        key_z_spec(cache_key_spec(x, z)) == z as int,
{
    assert((((((x as u32 as u64) << 32) | (z as u32 as u64)) >> 32) as u32 as i32) == x
        && (((((x as u32 as u64) << 32) | (z as u32 as u64))) as u32 as i32) == z) by (bit_vector);
}

/// Pack a world coordinate pair into a cache key.
pub fn cache_key(x: i32, z: i32) -> (k: u64)
    ensures
        k == cache_key_spec(x, z),
{
    ((x as u32 as u64) << 32u64) | (z as u32 as u64)
}

/// Every cache entry holds exactly the slope of the coordinates its key
/// packs, for the given field and mode.
pub open spec fn cache_wf(m: Map<u64, i64>, nf: NoiseField, mode: SlopeMode) -> bool {
    forall|k: u64|
        m.contains_key(k) ==> #[trigger] m[k] == slope_spec(nf, mode, key_x_spec(k), key_z_spec(k))
}

/// The memoized slope at world `(x, z)`.
///
/// Returns exactly [`slope_spec`]; on a repeated query for the same
/// coordinates the cached value is returned bit-identically, no field is
/// resampled, and the cache is left unchanged.
pub fn slope(
    noise: &NoiseField,
    cache: &mut HashMap<u64, i64>,
    slope_mode: &SlopeMode,
    x: i32,
    z: i32,
) -> (r: i64)
    requires
        cache_wf(old(cache)@, *noise, *slope_mode),
    ensures
        r == slope_spec(*noise, *slope_mode, x as int, z as int),
        0 <= r <= 2 * VAL_MAX,
        final(cache)@ == old(cache)@.insert(cache_key_spec(x, z), r),
        cache_wf(final(cache)@, *noise, *slope_mode),
        old(cache)@.contains_key(cache_key_spec(x, z)) ==> final(cache)@ == old(cache)@,
{
    let key = cache_key(x, z);
    proof {
        lemma_cache_key(x, z);
    }
    let cached = cache.get(&key);
    match cached {
        Some(v) => {
            let r = *v;
            proof {
                lemma_slope_prefix_bounds(
                    *noise,
                    world_sample_spec(*noise, x as int, z as int),
                    offsets_spec(*slope_mode),
                    x as int,
                    z as int,
                    offsets_spec(*slope_mode).len() as int,
                );
                assert(old(cache)@.insert(key, r) =~= old(cache)@);
            }
            r
        },
        None => {
            let center = noise.sample((x as i64) * SCALE, (z as i64) * SCALE);
            let offs = slope_mode.offsets();
            let mut mx: i64 = 0;
            let mut i: usize = 0;
            while i < offs.len()
                invariant
                    0 <= i <= offs@.len(),
                    offs@ == offsets_spec(*slope_mode),
                    -VAL_MAX <= center <= VAL_MAX,
                    center == world_sample_spec(*noise, x as int, z as int),
                    mx == slope_prefix_spec(
                        *noise,
                        center as int,
                        offs@,
                        x as int,
                        z as int,
                        i as int,
                    ),
                    0 <= mx <= 2 * VAL_MAX,
                decreases offs@.len() - i,
            {
                let (dx, dz) = offs[i];
                let v = noise.sample(((x as i64) + (dx as i64)) * SCALE, ((z as i64) + (dz as i64)) * SCALE);
                let d = if v >= center {
                    v - center
                } else {
                    center - v
                };
                if d > mx {
                    mx = d;
                }
                i = i + 1;
            }
            cache.insert(key, mx);
            mx
        },
    }
}

} // verus!

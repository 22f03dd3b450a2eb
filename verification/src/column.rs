//! The per-column algorithm: stratified band construction, slope-driven
//! erosion, stack merging, and the voxel-emission walk.
//!
//! Each column at world `(x, z)` is independent: sample the base field for
//! the total height, build the stratified stack (clipped so the running
//! sum never exceeds the total), build the eroded stack from the local
//! slope, let the eroded demand consume the stratified stack from the top
//! down, then walk the merged stack emitting one block per vertical cell.

use vstd::prelude::*;
use std::collections::HashMap;
use crate::fixed::{SCALE, VAL_MAX, tdiv};
use crate::field::NoiseField;
use crate::material::{Material, Layer};
use crate::slope::{slope_spec, slope};
use crate::context::{Config, MAX_MATERIALS};

verus! {

broadcast use vstd::std_specs::hash::group_hash_axioms;

/// One voxel handed to the host: chunk-local `x`/`z`, absolute cell `y`,
/// and the opaque block id to place there.
#[derive(Clone, Copy, Debug, PartialEq, Eq, Structural)]
pub struct Emission {
    pub x: i32,
    pub y: i32,
    pub z: i32,
    pub block: u16,
}

/// The mathematical model of a band stack: each band as the material and
/// its exact (fixed-point, unbounded) height.
pub open spec fn matches_bands(s: Seq<Layer>, m: Seq<(Material, int)>) -> bool {
    &&& s.len() == m.len()
    &&& forall|t: int|
        0 <= t < s.len() ==> (#[trigger] s[t]).material == m[t].0 && s[t].height as int == m[t].1
}

/// Every band height of the model lies within `b` in magnitude.
pub open spec fn bounded_bands(m: Seq<(Material, int)>, b: int) -> bool {
    forall|t: int| 0 <= t < m.len() ==> -b <= (#[trigger] m[t]).1 <= b
}

/// The sum of the band heights from index `idx` on.
pub open spec fn sum_from(m: Seq<(Material, int)>, idx: int) -> int
    decreases m.len() - idx,
{
    if idx < 0 || idx >= m.len() {
        0
    } else {
        m[idx].1 + sum_from(m, idx + 1)
    }
}

/// The sum of all band heights.
pub open spec fn sum_bands(m: Seq<(Material, int)>) -> int {
    sum_from(m, 0)
}

/// Largest magnitude a stratified band height can take.
pub const BAND_MAX: i64 = 0x4000_0000;

/// The stratified stack from index `idx` on, with running accumulator
/// `acc`: every material but the last contributes its private field's
/// sample, clipped downward so the accumulator never exceeds `total`; the
/// last contributes the exact remainder; iteration stops early once the
/// accumulator reaches `total`.
pub open spec fn strat_bands_rec(
    mats: Seq<Material>,
    nmap: Map<u64, NoiseField>,
    total: int,
    xf: int,
    zf: int,
    idx: int,
    acc: int,
) -> Seq<(Material, int)>
    decreases mats.len() - idx,
{
    if idx < 0 || idx >= mats.len() {
        Seq::empty()
    } else {
        let raw = if idx == mats.len() - 1 {
            total - acc
        } else {
            nmap[mats[idx].id_spec()].sample_spec(xf, zf)
        };
        let acc2 = acc + raw;
        let clip = if acc2 - total > 0 {
            acc2 - total
        } else {
            0
        };
        let band = (mats[idx], raw - clip);
        if acc2 >= total {
            seq![band]
        } else {
            seq![band] + strat_bands_rec(mats, nmap, total, xf, zf, idx + 1, acc2)
        }
    }
}

/// The whole stratified stack of a column.
pub open spec fn strat_bands(
    mats: Seq<Material>,
    nmap: Map<u64, NoiseField>,
    total: int,
    xf: int,
    zf: int,
) -> Seq<(Material, int)> {
    strat_bands_rec(mats, nmap, total, xf, zf, 0, 0)
}

/// The clipped stratified stack always sums to exactly the remaining
/// height `total - acc` (when at least one material is left).
pub proof fn lemma_strat_sum(
    mats: Seq<Material>,
    nmap: Map<u64, NoiseField>,
    total: int,
    xf: int,
    zf: int,
    idx: int,
    acc: int,
)
    requires
        0 <= idx < mats.len(),
    ensures
        sum_bands(strat_bands_rec(mats, nmap, total, xf, zf, idx, acc)) == total - acc,
    decreases mats.len() - idx,
{
    let s = strat_bands_rec(mats, nmap, total, xf, zf, idx, acc);
    let raw = if idx == mats.len() - 1 {
        total - acc
    } else {
        nmap[mats[idx].id_spec()].sample_spec(xf, zf)
    };
    let acc2 = acc + raw;
    if idx == mats.len() - 1 || acc2 >= total {
        assert(sum_from(s, 1) == 0);
    } else {
        lemma_strat_sum(mats, nmap, total, xf, zf, idx + 1, acc2);
        let rest = strat_bands_rec(mats, nmap, total, xf, zf, idx + 1, acc2);
        assert(s == seq![(mats[idx], raw)] + rest);
        lemma_sum_cons((mats[idx], raw), rest);
    }
}

/// The stratified stack has at least one band and at most one per material.
pub proof fn lemma_strat_len(
    mats: Seq<Material>,
    nmap: Map<u64, NoiseField>,
    total: int,
    xf: int,
    zf: int,
    idx: int,
    acc: int,
)
    requires
        0 <= idx < mats.len(),
    ensures
        1 <= strat_bands_rec(mats, nmap, total, xf, zf, idx, acc).len() <= mats.len() - idx,
    decreases mats.len() - idx,
{
    let raw = if idx == mats.len() - 1 {
        total - acc
    } else {
        nmap[mats[idx].id_spec()].sample_spec(xf, zf)
    };
    let acc2 = acc + raw;
    if !(idx == mats.len() - 1 || acc2 >= total) {
        lemma_strat_len(mats, nmap, total, xf, zf, idx + 1, acc2);
    }
}

/// Dropping the first band shifts the suffix sum by one index.
pub proof fn lemma_sum_from_shift(m: Seq<(Material, int)>, idx: int)
    requires
        1 <= idx <= m.len(),
    ensures
        sum_from(m, idx) == sum_from(m.skip(1), idx - 1),
    decreases m.len() - idx,
{
    if idx < m.len() {
        lemma_sum_from_shift(m, idx + 1);
    }
}

/// Prepending a band adds its height to the sum.
pub proof fn lemma_sum_cons(band: (Material, int), rest: Seq<(Material, int)>)
    ensures
        sum_bands(seq![band] + rest) == band.1 + sum_bands(rest),
{
    let s = seq![band] + rest;
    lemma_sum_from_shift(s, 1);
    assert(s.skip(1) =~= rest);
}

/// Build the stratified stack from `idx` on (recursion mirrors
/// [`strat_bands_rec`] exactly).
fn strat_build(
    mats: &Vec<Material>,
    nmap: &HashMap<u64, NoiseField>,
    total: i64,
    xf: i64,
    zf: i64,
    idx: usize,
    acc: i64,
) -> (r: Vec<Layer>)
    requires
        mats@.len() <= MAX_MATERIALS,
        idx <= mats@.len(),
        forall|t: int|
            0 <= t < mats@.len() ==> nmap@.contains_key((#[trigger] mats@[t]).id_spec()),
        -VAL_MAX <= total <= VAL_MAX,
        -((idx + 1) as int) * (VAL_MAX as int) <= acc as int <= VAL_MAX,
    ensures
        matches_bands(r@, strat_bands_rec(mats@, nmap@, total as int, xf as int, zf as int, idx as int, acc as int)),
        bounded_bands(
            strat_bands_rec(mats@, nmap@, total as int, xf as int, zf as int, idx as int, acc as int),
            BAND_MAX as int,
        ),
    decreases mats@.len() - idx,
{
    if idx >= mats.len() {
        Vec::new()
    } else {
        let raw: i64 = if idx == mats.len() - 1 {
            total - acc
        } else {
            let id = mats[idx].id();
            let nf = nmap.get(&id);
            match nf {
                Some(nf) => nf.sample(xf, zf),
                None => {
                    proof {
                        assert(nmap@.contains_key(mats@[idx as int].id_spec()));
                    }
                    // unreachable: the context invariant registers every id
                    vstd::pervasive::unreached()
                },
            }
        };
        let acc2: i64 = acc + raw;
        let clip: i64 = if acc2 - total > 0 {
            acc2 - total
        } else {
            0
        };
        let band = Layer { material: mats[idx], height: raw - clip };
        if acc2 >= total {
            let mut v: Vec<Layer> = Vec::new();
            v.push(band);
            proof {
                let model = strat_bands_rec(
                    mats@,
                    nmap@,
                    total as int,
                    xf as int,
                    zf as int,
                    idx as int,
                    acc as int,
                );
                assert(v@ =~= seq![band]);
                assert(model =~= seq![(mats@[idx as int], (raw - clip) as int)]);
            }
            v
        } else {
            let mut rest = strat_build(mats, nmap, total, xf, zf, idx + 1, acc2);
            rest.insert(0, band);
            proof {
                let model = strat_bands_rec(
                    mats@,
                    nmap@,
                    total as int,
                    xf as int,
                    zf as int,
                    idx as int,
                    acc as int,
                );
                let rest_model = strat_bands_rec(
                    mats@,
                    nmap@,
                    total as int,
                    xf as int,
                    zf as int,
                    idx as int + 1,
                    acc2 as int,
                );
                assert(rest@ =~= seq![band] + rest@.subrange(1, rest@.len() as int));
                assert(model == seq![(mats@[idx as int], (raw - clip) as int)] + rest_model);
            }
            rest
        }
    }
}

/// The eroded band height for a material under a given slope: linear
/// interpolation from full nominal thickness at slope zero down to zero at
/// `max_slope`, and zero beyond.
pub open spec fn eroded_height_spec(m: Material, sl: int) -> int {
    if sl <= m.max_slope_spec() {
        ((m.max_slope_spec() - sl) * m.thickness_spec()) / m.max_slope_spec()
    } else {
        0
    }
}

/// Compute an eroded band height.
///
/// Flat ground (`sl == 0`) yields exactly the nominal thickness; slope at
/// or beyond the material's threshold yields exactly zero; the result is
/// always between the two.
pub fn eroded_band_height(m: &Material, sl: i64) -> (r: i64)
    requires
        !m.is_stratified(),
        m.max_slope_spec() > 0,
        0 <= m.thickness_spec() <= VAL_MAX,
        0 <= sl <= 4 * VAL_MAX,
    ensures
        r == eroded_height_spec(*m, sl as int),
        0 <= r <= m.thickness_spec(),
        sl == 0 ==> r == m.thickness_spec(),
        sl >= m.max_slope_spec() ==> r == 0,
{
    let (ms, t) = match m {
        Material::Eroded { max_slope, thickness, .. } => (*max_slope, *thickness),
        Material::Stratified { .. } => vstd::pervasive::unreached(),
    };
    if sl <= ms {
        proof {
            assert(0 <= ((ms - sl) as int) * (t as int) <= (ms as int) * (t as int)
                && (ms as int) * (t as int) <= 0x7FFF_FFFF_FFFF_FFFF * 0x200000)
                by (nonlinear_arith)
                requires
                    0 <= ms - sl <= ms <= 0x7FFF_FFFF_FFFF_FFFF,
                    0 <= t <= 0x200000,
            ;
        }
        let p: u128 = ((ms - sl) as u128) * (t as u128);
        let q: u128 = p / (ms as u128);
        proof {
            lemma_eroded_height_bounds(*m, sl as int);
        }
        q as i64
    } else {
        proof {
            lemma_eroded_height_bounds(*m, sl as int);
        }
        0
    }
}

/// The eroded band height lies between zero and the nominal thickness:
/// exactly the thickness on flat ground, exactly zero at or past the
/// material's slope threshold.
pub proof fn lemma_eroded_height_bounds(m: Material, sl: int)
    requires
        !m.is_stratified(),
        m.max_slope_spec() > 0,
        0 <= m.thickness_spec(),
        0 <= sl,
    ensures
        0 <= eroded_height_spec(m, sl) <= m.thickness_spec(),
        sl == 0 ==> eroded_height_spec(m, sl) == m.thickness_spec(),
        sl >= m.max_slope_spec() ==> eroded_height_spec(m, sl) == 0,
{
    let ms = m.max_slope_spec();
    let t = m.thickness_spec();
    if sl <= ms {
        let p = (ms - sl) * t;
        assert(0 <= p <= ms * t) by (nonlinear_arith)
            requires
                p == (ms - sl) * t,
                0 <= ms - sl <= ms,
                0 <= t,
        ;
        vstd::arithmetic::div_mod::lemma_div_is_ordered(p, ms * t, ms);
        vstd::arithmetic::div_mod::lemma_div_multiples_vanish(t, ms);
        vstd::arithmetic::div_mod::lemma_div_pos_is_pos(p, ms);
        if sl == 0 {
            assert(p == ms * t);
        }
        if sl == ms {
            assert(p == 0) by (nonlinear_arith)
                requires
                    p == (ms - sl) * t,
                    ms - sl == 0,
            ;
            assert(p / ms == 0) by {
                vstd::arithmetic::div_mod::lemma_div_of0(ms);
            }
        }
    }
}

/// The model a layer stack stands for: each band's material and height.
pub open spec fn bands_of(s: Seq<Layer>) -> Seq<(Material, int)> {
    Seq::new(s.len(), |i: int| (s[i].material, s[i].height as int))
}

/// A stack matches a model exactly when its view is that model.
pub proof fn lemma_matches_bands_of(s: Seq<Layer>, m: Seq<(Material, int)>)
    requires
        matches_bands(s, m),
    ensures
        bands_of(s) == m,
{
    assert(bands_of(s) =~= m);
}

/// Band-sum: when no early exit happens — the accumulator stays below
/// `total` at every material before the last — the raw (unclipped) band
/// heights, with the last set to the exact remainder, sum to `total - acc`;
/// from the start, to exactly the sampled total height. (With an early
/// exit, the clipped heights still sum to `total - acc`: [`lemma_strat_sum`].)
pub open spec fn strat_no_early_exit(
    mats: Seq<Material>,
    nmap: Map<u64, NoiseField>,
    total: int,
    xf: int,
    zf: int,
    idx: int,
    acc: int,
) -> bool
    decreases mats.len() - idx,
{
    if idx < 0 || idx >= mats.len() || idx == mats.len() - 1 {
        true
    } else {
        let raw = nmap[mats[idx].id_spec()].sample_spec(xf, zf);
        acc + raw < total && strat_no_early_exit(mats, nmap, total, xf, zf, idx + 1, acc + raw)
    }
}

/// Under no early exit every clip is zero, so the built bands carry the
/// raw heights and their sum is exactly the remaining height.
pub proof fn lemma_band_sum_no_early_exit(
    mats: Seq<Material>,
    nmap: Map<u64, NoiseField>,
    total: int,
    xf: int,
    zf: int,
    idx: int,
    acc: int,
)
    requires
        0 <= idx < mats.len(),
        strat_no_early_exit(mats, nmap, total, xf, zf, idx, acc),
    ensures
        ({
            let s = strat_bands_rec(mats, nmap, total, xf, zf, idx, acc);
            &&& sum_bands(s) == total - acc
            &&& s.len() == mats.len() - idx
            &&& forall|t: int|
                idx <= t < mats.len() - 1 ==> (#[trigger] s[t - idx]).1 == nmap[
                    mats[t].id_spec()
                ].sample_spec(xf, zf)
        }),
    decreases mats.len() - idx,
{
    lemma_strat_sum(mats, nmap, total, xf, zf, idx, acc);
    let s = strat_bands_rec(mats, nmap, total, xf, zf, idx, acc);
    if idx < mats.len() - 1 {
        let raw = nmap[mats[idx].id_spec()].sample_spec(xf, zf);
        lemma_band_sum_no_early_exit(mats, nmap, total, xf, zf, idx + 1, acc + raw);
        let rest = strat_bands_rec(mats, nmap, total, xf, zf, idx + 1, acc + raw);
        assert(s == seq![(mats[idx], raw)] + rest);
        assert forall|t: int| idx <= t < mats.len() - 1 implies (#[trigger] s[t - idx]).1 == nmap[
            mats[t].id_spec()
        ].sample_spec(xf, zf) by {
            if t > idx {
                assert(s[t - idx] == rest[t - (idx + 1)]);
            }
        }
    }
}

/// The eroded stack under a given slope: each eroded material with its
/// interpolated band height, in catalog (weight-descending) order.
pub open spec fn eroded_bands_spec(emats: Seq<Material>, sl: int) -> Seq<(Material, int)> {
    Seq::new(emats.len(), |i: int| (emats[i], eroded_height_spec(emats[i], sl)))
}

/// Build the eroded stack and its total height.
fn eroded_build(emats: &Vec<Material>, sl: i64) -> (r: (Vec<Layer>, i64))
    requires
        emats@.len() <= MAX_MATERIALS,
        forall|t: int|
            0 <= t < emats@.len() ==> {
                &&& !(#[trigger] emats@[t]).is_stratified()
                &&& emats@[t].max_slope_spec() > 0
                &&& 0 <= emats@[t].thickness_spec() <= VAL_MAX
            },
        0 <= sl <= 4 * VAL_MAX,
    ensures
        matches_bands(r.0@, eroded_bands_spec(emats@, sl as int)),
        r.1 == sum_bands(eroded_bands_spec(emats@, sl as int)),
        0 <= r.1 <= (MAX_MATERIALS as int) * (VAL_MAX as int),
        bounded_bands(eroded_bands_spec(emats@, sl as int), VAL_MAX as int),
{
    let ghost model = eroded_bands_spec(emats@, sl as int);
    let mut out: Vec<Layer> = Vec::new();
    let mut total: i64 = 0;
    let mut i: usize = 0;
    proof {
        assert forall|t: int| 0 <= t < model.len() implies 0 <= (#[trigger] model[t]).1
            <= VAL_MAX by {
            lemma_eroded_height_bounds(emats@[t], sl as int);
        }
        lemma_sum_nonneg_prefix(model, 0);
    }
    while i < emats.len()
        invariant
            0 <= i <= emats@.len(),
            emats@.len() <= MAX_MATERIALS,
            forall|t: int|
                0 <= t < emats@.len() ==> {
                    &&& !(#[trigger] emats@[t]).is_stratified()
                    &&& emats@[t].max_slope_spec() > 0
                    &&& 0 <= emats@[t].thickness_spec() <= VAL_MAX
                },
            0 <= sl <= 4 * VAL_MAX,
            model == eroded_bands_spec(emats@, sl as int),
            out@.len() == i,
            forall|t: int|
                0 <= t < i ==> (#[trigger] out@[t]).material == model[t].0 && out@[t].height as int
                    == model[t].1,
            total == sum_bands(model) - sum_from(model, i as int),
            0 <= total <= i * (VAL_MAX as int),
            bounded_bands(model, VAL_MAX as int),
        decreases emats@.len() - i,
    {
        let h = eroded_band_height(&emats[i], sl);
        out.push(Layer { material: emats[i], height: h });
        proof {
            assert(sum_from(model, i as int) == model[i as int].1 + sum_from(model, i as int + 1));
            lemma_sum_nonneg_prefix(model, i as int + 1);
        }
        total = total + h;
        i = i + 1;
    }
    (out, total)
}

/// A suffix sum of non-negative bands is non-negative and bounded.
proof fn lemma_sum_nonneg_prefix(m: Seq<(Material, int)>, idx: int)
    requires
        bounded_bands(m, VAL_MAX as int),
        forall|t: int| 0 <= t < m.len() ==> 0 <= (#[trigger] m[t]).1,
        0 <= idx <= m.len(),
    ensures
        0 <= sum_from(m, idx) <= (m.len() - idx) * (VAL_MAX as int),
    decreases m.len() - idx,
{
    if idx < m.len() {
        lemma_sum_nonneg_prefix(m, idx + 1);
    }
}

/// The merged stack: erosion demand consumes stratified bands from the top
/// down; the first band that over-satisfies the demand keeps the surplus,
/// and everything below it is untouched.
///
/// Policy for demand beyond the whole stack: every stratified band is
/// zeroed and the surplus demand is dropped; the eroded bands are then
/// stacked above unclipped, so the merged stack can sum to more than the
/// column total, and the emission walk still stops at the total's cell
/// count.
pub open spec fn merge_spec(strat: Seq<(Material, int)>, demand: int) -> Seq<(Material, int)>
    decreases strat.len(),
{
    if strat.len() == 0 {
        strat
    } else {
        let band = strat.last();
        let d2 = demand - band.1;
        if d2 >= 0 {
            merge_spec(strat.drop_last(), d2).push((band.0, 0))
        } else {
            strat.drop_last().push((band.0, -d2))
        }
    }
}

/// Merge correctness at zero demand: with no erosion demand and
/// non-negative band heights, merging changes nothing.
pub proof fn lemma_merge_zero_demand(strat: Seq<(Material, int)>)
    requires
        forall|t: int| 0 <= t < strat.len() ==> 0 <= (#[trigger] strat[t]).1,
    ensures
        merge_spec(strat, 0) == strat,
    decreases strat.len(),
{
    if strat.len() > 0 {
        let band = strat.last();
        if band.1 == 0 {
            assert(forall|t: int|
                0 <= t < strat.drop_last().len() ==> 0 <= (#[trigger] strat.drop_last()[t]).1);
            lemma_merge_zero_demand(strat.drop_last());
            assert(merge_spec(strat, 0) =~= strat);
        } else {
            assert(merge_spec(strat, 0) =~= strat);
        }
    }
}

/// Merging never loses more height than the demand.
pub proof fn lemma_merge_sum(strat: Seq<(Material, int)>, demand: int)
    requires
        0 <= demand,
    ensures
        sum_bands(merge_spec(strat, demand)) >= sum_bands(strat) - demand,
        merge_spec(strat, demand).len() == strat.len(),
    decreases strat.len(),
{
    if strat.len() > 0 {
        let band = strat.last();
        let d2 = demand - band.1;
        lemma_sum_push(strat.drop_last(), band);
        assert(strat.drop_last().push(band) =~= strat);
        if d2 >= 0 {
            lemma_merge_sum(strat.drop_last(), d2);
            lemma_sum_push(merge_spec(strat.drop_last(), d2), (band.0, 0));
        } else {
            lemma_sum_push(strat.drop_last(), (band.0, -d2));
        }
    }
}

/// Appending a band adds its height to the sum.
pub proof fn lemma_sum_push(m: Seq<(Material, int)>, band: (Material, int))
    ensures
        sum_bands(m.push(band)) == sum_bands(m) + band.1,
    decreases m.len(),
{
    let s = m.push(band);
    if m.len() == 0 {
        assert(s =~= seq![band]);
        assert(sum_from(s, 1) == 0);
    } else {
        lemma_sum_push(m.skip(1), band);
        assert(s.skip(1) =~= m.skip(1).push(band));
        lemma_sum_from_shift(s, 1);
        lemma_sum_from_shift(m, 1);
    }
}

/// Merge the eroded demand into the top `n` stratified bands, in place.
fn merge_bands(layers: &mut Vec<Layer>, demand: i64, n: usize)
    requires
        n <= old(layers)@.len(),
        old(layers)@.len() <= 2 * MAX_MATERIALS,
        bounded_bands(bands_of(old(layers)@), BAND_MAX as int),
        0 <= demand <= 0x1000_0000 + ((2 * MAX_MATERIALS - n) as int) * (BAND_MAX as int),
    ensures
        final(layers)@.len() == old(layers)@.len(),
        bands_of(final(layers)@).skip(n as int) == bands_of(old(layers)@).skip(n as int),
        final(layers)@.skip(n as int) == old(layers)@.skip(n as int),
        bands_of(final(layers)@).take(n as int) == merge_spec(
            bands_of(old(layers)@).take(n as int),
            demand as int,
        ),
        bounded_bands(bands_of(final(layers)@), BAND_MAX as int),
    decreases n,
{
    let ghost orig = layers@;
    if n == 0 {
        proof {
            assert(bands_of(layers@).take(0) =~= merge_spec(bands_of(orig).take(0), demand as int));
            assert(bands_of(layers@).skip(0) =~= bands_of(orig).skip(0));
            assert(layers@.skip(0) =~= orig.skip(0));
        }
        return ;
    }
    let band = layers[n - 1];
    proof {
        assert(bands_of(orig)[n as int - 1].1 == band.height as int);
    }
    let d2: i64 = demand - band.height;
    if d2 >= 0 {
        layers[n - 1] = Layer { material: band.material, height: 0 };
        let ghost mid = layers@;
        proof {
            assert forall|t: int| 0 <= t < bands_of(mid).len() implies -BAND_MAX
                <= (#[trigger] bands_of(mid)[t]).1 <= BAND_MAX by {
                if t != n as int - 1 {
                    assert(bands_of(orig)[t].1 == bands_of(mid)[t].1);
                }
            }
        }
        merge_bands(layers, d2, n - 1);
        proof {
            let om = bands_of(orig).take(n as int);
            let mm = bands_of(mid).take(n as int - 1);
            lemma_merge_sum(mm, d2 as int);
            assert(om.last() == (band.material, band.height as int));
            assert(om.drop_last() =~= bands_of(orig).take(n as int - 1));
            assert(mm =~= bands_of(orig).take(n as int - 1));
            assert(layers@[n as int - 1] == mid[n as int - 1]) by {
                assert(layers@.skip(n as int - 1)[0] == mid.skip(n as int - 1)[0]);
            }
            assert(bands_of(layers@)[n as int - 1] == (band.material, 0int));
            assert(bands_of(layers@).take(n as int) =~= bands_of(layers@).take(
                n as int - 1,
            ).push((band.material, 0int)));
            assert(bands_of(layers@).take(n as int) == merge_spec(om, demand as int));
            assert forall|t: int| n as int <= t < layers@.len() implies layers@[t] == orig[t] by {
                assert(layers@.skip(n as int - 1)[t - (n as int - 1)] == mid.skip(
                    n as int - 1,
                )[t - (n as int - 1)]);
            }
            assert(layers@.skip(n as int) =~= orig.skip(n as int));
            assert(bands_of(layers@).skip(n as int) =~= bands_of(orig).skip(n as int));
        }
    } else {
        layers[n - 1] = Layer { material: band.material, height: -d2 };
        proof {
            let om = bands_of(orig).take(n as int);
            assert(om.last() == (band.material, band.height as int));
            assert(om.drop_last() =~= bands_of(orig).take(n as int - 1));
            assert(bands_of(layers@)[n as int - 1] == (band.material, (-d2) as int));
            assert(bands_of(layers@).take(n as int) =~= om.drop_last().push(
                (band.material, (-d2) as int),
            ));
            assert(bands_of(layers@).take(n as int) == merge_spec(om, demand as int));
            assert(layers@.skip(n as int) =~= orig.skip(n as int));
            assert(bands_of(layers@).skip(n as int) =~= bands_of(orig).skip(n as int));
            assert forall|t: int| 0 <= t < bands_of(layers@).len() implies -BAND_MAX
                <= (#[trigger] bands_of(layers@)[t]).1 <= BAND_MAX by {
                if t != n as int - 1 {
                    assert(bands_of(orig)[t].1 == bands_of(layers@)[t].1);
                }
            }
        }
    }
}

/// Suffix sums of a bounded stack are bounded.
pub proof fn lemma_sum_from_bounds(m: Seq<(Material, int)>, idx: int)
    requires
        bounded_bands(m, BAND_MAX as int),
        0 <= idx <= m.len(),
    ensures
        -(m.len() - idx) * (BAND_MAX as int) <= sum_from(m, idx) <= (m.len() - idx) * (
        BAND_MAX as int),
    decreases m.len() - idx,
{
    if idx < m.len() {
        lemma_sum_from_bounds(m, idx + 1);
    }
}

/// The sum of a concatenation is the sum of the parts.
pub proof fn lemma_sum_concat(a: Seq<(Material, int)>, b: Seq<(Material, int)>)
    ensures
        sum_bands(a + b) == sum_bands(a) + sum_bands(b),
    decreases a.len(),
{
    if a.len() == 0 {
        assert(a + b =~= b);
    } else {
        lemma_sum_concat(a.skip(1), b);
        assert((a + b).skip(1) =~= a.skip(1) + b);
        lemma_sum_from_shift(a + b, 1);
        lemma_sum_from_shift(a, 1);
        assert((a + b)[0] == a[0]);
    }
}

/// Where the layer cursor lands for a cell midpoint `ymid`: starting at
/// `idx` with `bottom` below it, advance past every band whose top is
/// still below the midpoint, accumulating heights into the bottom.
pub open spec fn advance_spec(bands: Seq<(Material, int)>, idx: int, bottom: int, ymid: int) -> (
    int,
    int,
)
    decreases bands.len() - idx,
{
    if idx < 0 || idx >= bands.len() {
        (idx, bottom)
    } else if ymid - bottom > bands[idx].1 {
        advance_spec(bands, idx + 1, bottom + bands[idx].1, ymid)
    } else {
        (idx, bottom)
    }
}

/// Advance the layer cursor to the band containing the cell midpoint.
fn advance(layers: &Vec<Layer>, idx: usize, bottom: i64, ymid: i64) -> (r: (usize, i64))
    requires
        bounded_bands(bands_of(layers@), BAND_MAX as int),
        layers@.len() <= 2 * MAX_MATERIALS,
        idx < layers@.len(),
        -0x8000_0000_0000 - (idx as int) * (BAND_MAX as int) <= bottom <= 0x8000_0000_0000 + (
        idx as int) * (BAND_MAX as int),
        -0x400000 <= ymid <= 0x400000,
        ymid <= bottom + sum_from(bands_of(layers@), idx as int),
    ensures
        (r.0 as int, r.1 as int) == advance_spec(
            bands_of(layers@),
            idx as int,
            bottom as int,
            ymid as int,
        ),
        idx <= r.0 < layers@.len(),
        r.1 + sum_from(bands_of(layers@), r.0 as int) == bottom + sum_from(
            bands_of(layers@),
            idx as int,
        ),
        ymid - r.1 <= bands_of(layers@)[r.0 as int].1,
    decreases layers@.len() - idx,
{
    let h = layers[idx].height;
    proof {
        assert(bands_of(layers@)[idx as int].1 == h as int);
    }
    if ymid - bottom > h {
        proof {
            assert(sum_from(bands_of(layers@), idx as int) == h + sum_from(
                bands_of(layers@),
                idx as int + 1,
            ));
        }
        advance(layers, idx + 1, bottom + h, ymid)
    } else {
        (idx, bottom)
    }
}

/// The voxels a column emits, walking cells `y` from `y0` up to `cells`:
/// each cell gets its band's block; when the cursor leaves a band with a
/// cap block, the cap overrides the cell below the boundary; the topmost
/// band's cap, if any, is emitted once more at `cells`, the exposed
/// surface.
pub open spec fn walk_spec(
    bands: Seq<(Material, int)>,
    cells: int,
    y: int,
    last_idx: int,
    cur_idx: int,
    bottom: int,
    x: i32,
    z: i32,
) -> Seq<Emission>
    decreases cells - y,
{
    if y >= cells {
        match bands[last_idx].0.top_spec() {
            Some(tb) => seq![
                Emission { x, y: cells as i32, z, block: tb },
            ],
            None => Seq::empty(),
        }
    } else {
        let ymid = y * (SCALE as int) + (SCALE as int) / 2;
        let step = advance_spec(bands, cur_idx, bottom, ymid);
        let caps: Seq<Emission> = if step.0 != last_idx {
            match bands[last_idx].0.top_spec() {
                Some(tb) => seq![
                    Emission { x, y: (y - 1) as i32, z, block: tb },
                ],
                None => Seq::empty(),
            }
        } else {
            Seq::empty()
        };
        caps + seq![
            Emission { x, y: y as i32, z, block: bands[step.0].0.block_spec() },
        ] + walk_spec(bands, cells, y + 1, step.0, step.0, step.1, x, z)
    }
}

/// Walk the merged stack and append the column's emissions to `out`.
fn walk_build(
    layers: &Vec<Layer>,
    cells: i32,
    y: i32,
    last_idx: usize,
    cur_idx: usize,
    bottom: i64,
    x: i32,
    z: i32,
    out: &mut Vec<Emission>,
)
    requires
        bounded_bands(bands_of(layers@), BAND_MAX as int),
        1 <= layers@.len() <= 2 * MAX_MATERIALS,
        0 <= y,
        y <= cells || y == 0,
        cells <= 2048,
        last_idx < layers@.len(),
        cur_idx < layers@.len(),
        bottom + sum_from(bands_of(layers@), cur_idx as int) == sum_bands(bands_of(layers@)),
        cells > 0 ==> sum_bands(bands_of(layers@)) >= cells * (SCALE as int),
    ensures
        final(out)@ == old(out)@ + walk_spec(
            bands_of(layers@),
            cells as int,
            y as int,
            last_idx as int,
            cur_idx as int,
            bottom as int,
            x,
            z,
        ),
    decreases cells - y,
{
    let ghost bands = bands_of(layers@);
    if y >= cells {
        match layers[last_idx].material.top() {
            Some(tb) => {
                out.push(Emission { x, y: cells, z, block: tb });
                proof {
                    assert(final(out)@ =~= old(out)@ + walk_spec(
                        bands,
                        cells as int,
                        y as int,
                        last_idx as int,
                        cur_idx as int,
                        bottom as int,
                        x,
                        z,
                    ));
                }
            },
            None => {
                proof {
                    assert(final(out)@ =~= old(out)@ + walk_spec(
                        bands,
                        cells as int,
                        y as int,
                        last_idx as int,
                        cur_idx as int,
                        bottom as int,
                        x,
                        z,
                    ));
                }
            },
        }
    } else {
        proof {
            lemma_sum_from_bounds(bands, cur_idx as int);
            lemma_sum_from_bounds(bands, 0);
        }
        let ymid: i64 = (y as i64) * SCALE + SCALE / 2;
        let step = advance(layers, cur_idx, bottom, ymid);
        let i2 = step.0;
        let b2 = step.1;
        let ghost caps_done = out@;
        if last_idx != i2 {
            match layers[last_idx].material.top() {
                Some(tb) => {
                    out.push(Emission { x, y: y - 1, z, block: tb });
                },
                None => {},
            }
        }
        out.push(Emission { x, y, z, block: layers[i2].material.block() });
        let ghost before_rec = out@;
        walk_build(layers, cells, y + 1, i2, i2, b2, x, z, out);
        proof {
            let full = walk_spec(
                bands,
                cells as int,
                y as int,
                last_idx as int,
                cur_idx as int,
                bottom as int,
                x,
                z,
            );
            assert(final(out)@ =~= old(out)@ + full);
        }
    }
}

/// The render-distance bound derived from the view distance.
pub open spec fn render_dist_spec(view_dist: u8) -> int {
    (view_dist as int / 2) * 16
}

/// Whether a world column lies inside the active rectangle; columns
/// outside it are skipped without computing anything.
pub open spec fn in_active_range(view_dist: u8, rx: int, rz: int) -> bool {
    let rd = render_dist_spec(view_dist);
    !(rx >= rd + 15 || rz >= rd + 15 || rx <= -rd + 1 || rz <= -rd + 1)
}

/// The merged band stack of the column at world `(rx, rz)`: the stratified
/// stack, trimmed from the top by the total eroded demand, with the eroded
/// bands stacked above it.
pub open spec fn column_bands_spec(cfg: Config, rx: int, rz: int) -> Seq<(Material, int)> {
    let total = cfg.noise.sample_spec(rx * SCALE, rz * SCALE);
    let strat = strat_bands(
        cfg.stratified_materials@,
        cfg.noise_maps@,
        total,
        rx * SCALE,
        rz * SCALE,
    );
    let sl = slope_spec(cfg.noise, cfg.slope_mode, rx, rz);
    let er = eroded_bands_spec(cfg.eroded_materials@, sl);
    merge_spec(strat, sum_bands(er)) + er
}

/// With no eroded materials there is no erosion demand and nothing to
/// append: the column's merged stack is the stratified stack unmodified
/// (provided its bands are non-negative; a negative band at the top would
/// be zeroed even by a zero demand).
pub proof fn lemma_column_bands_no_erosion(cfg: Config, rx: int, rz: int)
    requires
        cfg.eroded_materials@.len() == 0,
        ({
            let total = cfg.noise.sample_spec(rx * SCALE, rz * SCALE);
            let strat = strat_bands(
                cfg.stratified_materials@,
                cfg.noise_maps@,
                total,
                rx * SCALE,
                rz * SCALE,
            );
            forall|t: int| 0 <= t < strat.len() ==> 0 <= (#[trigger] strat[t]).1
        }),
    ensures
        ({
            let total = cfg.noise.sample_spec(rx * SCALE, rz * SCALE);
            column_bands_spec(cfg, rx, rz) == strat_bands(
                cfg.stratified_materials@,
                cfg.noise_maps@,
                total,
                rx * SCALE,
                rz * SCALE,
            )
        }),
{
    let total = cfg.noise.sample_spec(rx * SCALE, rz * SCALE);
    let strat = strat_bands(
        cfg.stratified_materials@,
        cfg.noise_maps@,
        total,
        rx * SCALE,
        rz * SCALE,
    );
    let sl = slope_spec(cfg.noise, cfg.slope_mode, rx, rz);
    let er = eroded_bands_spec(cfg.eroded_materials@, sl);
    assert(er =~= Seq::<(Material, int)>::empty());
    assert(sum_bands(er) == 0);
    lemma_merge_zero_demand(strat);
    assert(merge_spec(strat, 0) + er =~= strat);
}

/// Everything the column at world `(rx, rz)` emits, with chunk-local
/// coordinates `(x, z)`.
pub open spec fn column_emissions_spec(cfg: Config, x: i32, z: i32, rx: int, rz: int) -> Seq<
    Emission,
> {
    let total = cfg.noise.sample_spec(rx * SCALE, rz * SCALE);
    let cells = tdiv(total, SCALE as int);
    walk_spec(column_bands_spec(cfg, rx, rz), cells, 0, 0, 0, 0, x, z)
}

/// Run the whole column pipeline at world `(rx, rz)` and append its
/// emissions to `out`. Only the slope cache of the context changes, and
/// only by gaining correct entries.
fn column_emit(
    config: &mut Config,
    x: i32,
    z: i32,
    rx: i32,
    rz: i32,
    out: &mut Vec<Emission>,
)
    requires
        old(config).wf(),
        old(config).stratified_materials@.len() >= 1,
        -0x4000_0000 <= rx <= 0x4000_0000,
        -0x4000_0000 <= rz <= 0x4000_0000,
    ensures
        final(out)@ == old(out)@ + column_emissions_spec(*old(config), x, z, rx as int, rz as int),
        final(config).wf(),
        final(config).noise == old(config).noise,
        final(config).stratified_materials == old(config).stratified_materials,
        final(config).eroded_materials == old(config).eroded_materials,
        final(config).noise_maps == old(config).noise_maps,
        final(config).slope_mode == old(config).slope_mode,
        final(config).view_dist == old(config).view_dist,
        forall|k: u64|
            old(config).slope_cache@.contains_key(k)
                ==> #[trigger] final(config).slope_cache@.contains_key(k)
                && final(config).slope_cache@[k] == old(config).slope_cache@[k],
        forall|k: u64|
            #[trigger] final(config).slope_cache@.contains_key(k) ==> old(
                config,
            ).slope_cache@.contains_key(k) || k == crate::slope::cache_key_spec(rx, rz),
{
    let ghost cfg0 = *config;
    let xf: i64 = (rx as i64) * SCALE;
    let zf: i64 = (rz as i64) * SCALE;
    let total = config.noise.sample(xf, zf);
    let mut layers = strat_build(
        &config.stratified_materials,
        &config.noise_maps,
        total,
        xf,
        zf,
        0,
        0,
    );
    let ghost strat_model = strat_bands(
        cfg0.stratified_materials@,
        cfg0.noise_maps@,
        total as int,
        xf as int,
        zf as int,
    );
    proof {
        lemma_matches_bands_of(layers@, strat_model);
        lemma_strat_sum(
            cfg0.stratified_materials@,
            cfg0.noise_maps@,
            total as int,
            xf as int,
            zf as int,
            0,
            0,
        );
    }
    let n = layers.len();
    let ghost sl_spec = slope_spec(cfg0.noise, cfg0.slope_mode, rx as int, rz as int);
    let ghost eroded_model = eroded_bands_spec(cfg0.eroded_materials@, sl_spec);
    let mut eroded_layers: Vec<Layer>;
    let etotal: i64;
    if config.eroded_materials.len() > 0 {
        let sl = slope(&config.noise, &mut config.slope_cache, &config.slope_mode, rx, rz);
        let r = eroded_build(&config.eroded_materials, sl);
        eroded_layers = r.0;
        etotal = r.1;
        proof {
            lemma_matches_bands_of(eroded_layers@, eroded_model);
        }
    } else {
        eroded_layers = Vec::new();
        etotal = 0;
        proof {
            assert(eroded_model =~= Seq::<(Material, int)>::empty());
            assert(bands_of(eroded_layers@) =~= eroded_model);
            assert(sum_bands(eroded_model) == 0);
        }
    }
    let ghost pre_merge = bands_of(layers@);
    proof {
        lemma_merge_sum(strat_model, etotal as int);
        lemma_strat_len(
            cfg0.stratified_materials@,
            cfg0.noise_maps@,
            total as int,
            xf as int,
            zf as int,
            0,
            0,
        );
        assert(pre_merge.take(n as int) =~= pre_merge);
    }
    merge_bands(&mut layers, etotal, n);
    let ghost merged_model = merge_spec(strat_model, etotal as int);
    proof {
        assert(layers@.len() == n);
        assert(bands_of(layers@).take(n as int) =~= bands_of(layers@));
        assert(bands_of(layers@) == merged_model);
    }
    let ghost merged_layers = layers@;
    layers.append(&mut eroded_layers);
    let ghost full_model = column_bands_spec(cfg0, rx as int, rz as int);
    proof {
        assert(bands_of(layers@) =~= merged_model + eroded_model);
        assert(full_model == merged_model + eroded_model);
        lemma_sum_concat(merged_model, eroded_model);
    }
    let cells64: i64 = crate::fixed::tdiv_i128(total as i128, SCALE) as i64;
    proof {
        if total >= 0 {
            vstd::arithmetic::div_mod::lemma_div_is_ordered(
                total as int,
                VAL_MAX as int,
                SCALE as int,
            );
            vstd::arithmetic::div_mod::lemma_div_pos_is_pos(total as int, SCALE as int);
            vstd::arithmetic::div_mod::lemma_fundamental_div_mod(total as int, SCALE as int);
        } else {
            vstd::arithmetic::div_mod::lemma_div_is_ordered(
                -total as int,
                VAL_MAX as int,
                SCALE as int,
            );
            vstd::arithmetic::div_mod::lemma_div_pos_is_pos(-total as int, SCALE as int);
        }
    }
    let cells: i32 = cells64 as i32;
    proof {
        assert forall|t: int| 0 <= t < bands_of(layers@).len() implies -BAND_MAX
            <= (#[trigger] bands_of(layers@)[t]).1 <= BAND_MAX by {
            if t < merged_model.len() {
                assert(bands_of(layers@)[t] == merged_model[t]);
            } else {
                assert(bands_of(layers@)[t] == eroded_model[t - merged_model.len()]);
            }
        }
    }
    walk_build(&layers, cells, 0, 0, 0, 0, x, z, out);
}

/// The emissions of the first `n` columns of a chunk, in scan order
/// (`x`-major over the 16x16 grid); out-of-range columns contribute
/// nothing.
pub open spec fn chunk_columns_spec(cfg: Config, chunk_x: int, chunk_z: int, n: int) -> Seq<
    Emission,
>
    decreases n,
{
    if n <= 0 {
        Seq::empty()
    } else {
        let i = n - 1;
        let x = i / 16;
        let z = i % 16;
        let rx = x + chunk_x * 16;
        let rz = z + chunk_z * 16;
        chunk_columns_spec(cfg, chunk_x, chunk_z, n - 1) + (if in_active_range(
            cfg.view_dist,
            rx,
            rz,
        ) {
            column_emissions_spec(cfg, x as i32, z as i32, rx, rz)
        } else {
            Seq::empty()
        })
    }
}

/// Everything one chunk request emits.
pub open spec fn chunk_emissions_spec(cfg: Config, chunk_x: int, chunk_z: int) -> Seq<Emission> {
    chunk_columns_spec(cfg, chunk_x, chunk_z, 256)
}

/// `k` is the slope-cache key of some in-range column of the chunk at
/// `(chunk_x, chunk_z)`: generating the chunk can add no other key, so
/// skipped columns leave no trace in the cache.
pub open spec fn chunk_column_key(view_dist: u8, chunk_x: int, chunk_z: int, k: u64) -> bool {
    exists|x: int, z: int|
        0 <= x < 16 && 0 <= z < 16 && in_active_range(view_dist, x + chunk_x * 16, z + chunk_z * 16)
            && k == #[trigger] crate::slope::cache_key_spec(
            (x + chunk_x * 16) as i32,
            (z + chunk_z * 16) as i32,
        )
}

/// Two contexts agree on everything generation reads: the slope cache may
/// differ (it is only a memo of the slope function).
pub open spec fn same_generation_inputs(a: Config, b: Config) -> bool {
    &&& a.noise == b.noise
    &&& a.stratified_materials@ == b.stratified_materials@
    &&& a.eroded_materials@ == b.eroded_materials@
    &&& a.noise_maps@ == b.noise_maps@
    &&& a.slope_mode == b.slope_mode
    &&& a.view_dist == b.view_dist
}

/// Generation is a pure function of the configuration: the slope cache's
/// state never changes what a chunk emits, so reusing one context across
/// many requests (or rebuilding it) gives identical output.
pub proof fn lemma_generation_ignores_cache(a: Config, b: Config, chunk_x: int, chunk_z: int, n: int)
    requires
        same_generation_inputs(a, b),
    ensures
        chunk_columns_spec(a, chunk_x, chunk_z, n) == chunk_columns_spec(b, chunk_x, chunk_z, n),
    decreases n,
{
    if n > 0 {
        lemma_generation_ignores_cache(a, b, chunk_x, chunk_z, n - 1);
        let i = n - 1;
        let x = i / 16;
        let z = i % 16;
        let rx = x + chunk_x * 16;
        let rz = z + chunk_z * 16;
        assert(column_emissions_spec(a, x as i32, z as i32, rx, rz) == column_emissions_spec(
            b,
            x as i32,
            z as i32,
            rx,
            rz,
        ));
    }
}

/// Generate the chunk at chunk coordinates `(chunk_x, chunk_z)`: run the
/// column pipeline over all 256 columns, skipping those outside the active
/// rectangle, and return every emission in column scan order
/// (bottom-to-top within a column).
///
/// The context is unchanged except that its slope cache may gain entries;
/// every entry it already had survives with the identical value.
pub fn build_chunk_internal(config: &mut Config, chunk_x: i32, chunk_z: i32) -> (out: Vec<
    Emission,
>)
    requires
        old(config).wf(),
        old(config).stratified_materials@.len() >= 1,
        -0x10_0000 <= chunk_x <= 0x10_0000,
        -0x10_0000 <= chunk_z <= 0x10_0000,
    ensures
        out@ == chunk_emissions_spec(*old(config), chunk_x as int, chunk_z as int),
        final(config).wf(),
        final(config).noise == old(config).noise,
        final(config).stratified_materials == old(config).stratified_materials,
        final(config).eroded_materials == old(config).eroded_materials,
        final(config).noise_maps == old(config).noise_maps,
        final(config).slope_mode == old(config).slope_mode,
        final(config).view_dist == old(config).view_dist,
        forall|k: u64|
            old(config).slope_cache@.contains_key(k)
                ==> #[trigger] final(config).slope_cache@.contains_key(k)
                && final(config).slope_cache@[k] == old(config).slope_cache@[k],
        forall|k: u64|
            #[trigger] final(config).slope_cache@.contains_key(k) ==> old(
                config,
            ).slope_cache@.contains_key(k) || chunk_column_key(
                old(config).view_dist,
                chunk_x as int,
                chunk_z as int,
                k,
            ),
{
    let ghost cfg0 = *config;
    let mut out: Vec<Emission> = Vec::new();
    let rd: i32 = (config.view_dist / 2) as i32 * 16;
    let mut i: usize = 0;
    while i < 256
        invariant
            0 <= i <= 256,
            config.wf(),
            config.noise == cfg0.noise,
            config.stratified_materials == cfg0.stratified_materials,
            config.eroded_materials == cfg0.eroded_materials,
            config.noise_maps == cfg0.noise_maps,
            config.slope_mode == cfg0.slope_mode,
            config.view_dist == cfg0.view_dist,
            cfg0.stratified_materials@.len() >= 1,
            -0x10_0000 <= chunk_x <= 0x10_0000,
            -0x10_0000 <= chunk_z <= 0x10_0000,
            rd == render_dist_spec(cfg0.view_dist),
            out@ == chunk_columns_spec(cfg0, chunk_x as int, chunk_z as int, i as int),
            forall|k: u64|
                cfg0.slope_cache@.contains_key(k) ==> #[trigger] config.slope_cache@.contains_key(
                    k,
                ) && config.slope_cache@[k] == cfg0.slope_cache@[k],
            forall|k: u64|
                #[trigger] config.slope_cache@.contains_key(k)
                    ==> cfg0.slope_cache@.contains_key(k) || chunk_column_key(
                    cfg0.view_dist,
                    chunk_x as int,
                    chunk_z as int,
                    k,
                ),
        decreases 256 - i,
    {
        let ghost cfg_iter = *config;
        let x: i32 = (i / 16) as i32;
        let z: i32 = (i % 16) as i32;
        let rx: i32 = x + chunk_x * 16;
        let rz: i32 = z + chunk_z * 16;
        if !(rx >= rd + 15 || rz >= rd + 15 || rx <= -rd + 1 || rz <= -rd + 1) {
            column_emit(config, x, z, rx, rz, &mut out);
            proof {
                assert(column_emissions_spec(cfg_iter, x, z, rx as int, rz as int)
                    == column_emissions_spec(cfg0, x, z, rx as int, rz as int));
                assert forall|k: u64| cfg0.slope_cache@.contains_key(k) implies #[trigger]
                    config.slope_cache@.contains_key(k) && config.slope_cache@[k]
                    == cfg0.slope_cache@[k] by {
                    assert(cfg_iter.slope_cache@.contains_key(k));
                    assert(config.slope_cache@.contains_key(k));
                }
                assert forall|k: u64| #[trigger] config.slope_cache@.contains_key(k) implies
                    cfg0.slope_cache@.contains_key(k) || chunk_column_key(
                    cfg0.view_dist,
                    chunk_x as int,
                    chunk_z as int,
                    k,
                ) by {
                    if !cfg_iter.slope_cache@.contains_key(k) {
                        assert(k == crate::slope::cache_key_spec(rx, rz));
                        assert(in_active_range(
                            cfg0.view_dist,
                            x as int + chunk_x * 16,
                            z as int + chunk_z * 16,
                        ));
                        assert(k == crate::slope::cache_key_spec(
                            (x as int + chunk_x * 16) as i32,
                            (z as int + chunk_z * 16) as i32,
                        ));
                    }
                }
            }
        }
        proof {
            assert(x as int == (i as int) / 16 && z as int == (i as int) % 16);
            assert(out@ =~= chunk_columns_spec(cfg0, chunk_x as int, chunk_z as int, i as int + 1));
        }
        i = i + 1;
    }
    out
}

} // verus!

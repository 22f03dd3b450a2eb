//! The long-lived generation context.
//!
//! A [`Config`] owns the base height field, the sorted material catalog,
//! one private noise field per material (keyed by the material's stable
//! identifier), the slope cache, the slope-neighborhood mode and the view
//! distance. It is created once, reused across many chunk requests (only
//! the slope cache ever changes), and dropped by its owner.

use vstd::prelude::*;
use std::collections::HashMap;
use crate::fixed::{SCALE, VAL_MAX};
use crate::field::NoiseField;
use crate::material::Material;
use crate::catalog::{
    key_of, lemma_filter_all, lemma_sorted_distinct_perm, sort_materials, sorted_by_key, SortKey,
};
use crate::slope::{SlopeMode, cache_wf};

verus! {

broadcast use vstd::std_specs::hash::group_hash_axioms;

/// A configuration defect found when building a context.
#[derive(Clone, Copy, Debug, PartialEq, Eq, Structural)]
pub enum ConfigError {
    /// An eroded material's `max_slope` is zero or negative; the band
    /// height formula divides by it, so such a catalog is rejected before
    /// any column is processed.
    NonPositiveMaxSlope,
}

/// The stratified-material predicate, as a function value for `filter`.
pub open spec fn is_strat_fn() -> spec_fn(Material) -> bool {
    |m: Material| m.is_stratified()
}

/// The eroded-material predicate, as a function value for `filter`.
pub open spec fn is_eroded_fn() -> spec_fn(Material) -> bool {
    |m: Material| !m.is_stratified()
}

/// No eroded material has a non-positive `max_slope`.
pub open spec fn valid_materials(s: Seq<Material>) -> bool {
    forall|i: int|
        0 <= i < s.len() ==> (!(#[trigger] s[i]).is_stratified() ==> s[i].max_slope_spec() > 0)
}

/// Every nominal thickness fits the sample range (a capacity precondition,
/// not a tunable: band arithmetic sums at most [`MAX_MATERIALS`] samples).
pub open spec fn bounded_materials(s: Seq<Material>) -> bool {
    forall|i: int| 0 <= i < s.len() ==> 0 <= (#[trigger] s[i]).thickness_spec() <= VAL_MAX
}

/// Largest number of materials a catalog may hold.
pub const MAX_MATERIALS: usize = 64;

/// The per-material noise map a material list gives rise to: each
/// material's stable id mapped to its private field, later entries
/// overriding earlier ones with the same id.
pub open spec fn noise_map_of(s: Seq<Material>) -> Map<u64, NoiseField>
    decreases s.len(),
{
    if s.len() == 0 {
        Map::empty()
    } else {
        noise_map_of(s.drop_last()).insert(s.last().id_spec(), s.last().noise_spec())
    }
}

/// A generation context.
pub struct Config {
    /// The base terrain-height field.
    pub noise: NoiseField,
    /// Stratified materials, non-decreasing by start depth.
    pub stratified_materials: Vec<Material>,
    /// Eroded materials, non-increasing by weight.
    pub eroded_materials: Vec<Material>,
    /// Each material's private thickness-variation field, by stable id.
    pub noise_maps: HashMap<u64, NoiseField>,
    /// Memoized slopes, keyed by packed world coordinates.
    pub slope_cache: HashMap<u64, i64>,
    /// Which neighborhood the slope scan samples.
    pub slope_mode: SlopeMode,
    /// View distance in chunks; derives the active-rectangle culling bound.
    pub view_dist: u8,
}

impl Config {
    /// The context invariant: the catalog is partitioned and ordered, every
    /// material's noise field is registered under its id, eroded materials
    /// have positive `max_slope` and bounded thickness, and every cached
    /// slope equals the slope function's value at its key.
    pub open spec fn wf(self) -> bool {
        &&& self.stratified_materials@.len() <= MAX_MATERIALS
        &&& self.eroded_materials@.len() <= MAX_MATERIALS
        &&& sorted_by_key(SortKey::ByDepth, self.stratified_materials@)
        &&& sorted_by_key(SortKey::ByWeightDesc, self.eroded_materials@)
        &&& (forall|i: int|
            0 <= i < self.stratified_materials@.len() ==> {
                &&& (#[trigger] self.stratified_materials@[i]).is_stratified()
                &&& self.noise_maps@.contains_key(self.stratified_materials@[i].id_spec())
            })
        &&& (forall|i: int|
            0 <= i < self.eroded_materials@.len() ==> {
                &&& !(#[trigger] self.eroded_materials@[i]).is_stratified()
                &&& self.eroded_materials@[i].max_slope_spec() > 0
                &&& 0 <= self.eroded_materials@[i].thickness_spec() <= VAL_MAX
                &&& self.noise_maps@.contains_key(self.eroded_materials@[i].id_spec())
            })
        &&& cache_wf(self.slope_cache@, self.noise, self.slope_mode)
    }

    /// Build a context from an unordered material list.
    ///
    /// Rejects a catalog in which some eroded material has `max_slope <= 0`
    /// (and succeeds exactly otherwise). On success the stratified
    /// materials are ordered non-decreasing by depth and the eroded ones
    /// non-increasing by weight — each a permutation of the corresponding
    /// part of the input — every material's private noise field is
    /// registered under its stable id, and the slope cache starts empty.
    pub fn new(
        noise: NoiseField,
        materials: Vec<Material>,
        slope_mode: SlopeMode,
        view_dist: u8,
    ) -> (r: Result<Config, ConfigError>)
        requires
            materials@.len() <= MAX_MATERIALS,
            bounded_materials(materials@),
        ensures
            r is Ok <==> valid_materials(materials@),
            r matches Ok(c) ==> {
                &&& c.wf()
                &&& c.stratified_materials@.to_multiset() == materials@.filter(
                    is_strat_fn(),
                ).to_multiset()
                &&& c.eroded_materials@.to_multiset() == materials@.filter(
                    is_eroded_fn(),
                ).to_multiset()
                &&& c.noise == noise
                &&& c.slope_mode == slope_mode
                &&& c.view_dist == view_dist
                &&& c.noise_maps@ == noise_map_of(materials@)
                &&& c.slope_cache@ == Map::<u64, i64>::empty()
            },
    {
        let ghost mats = materials@;
        let mut stratified_materials: Vec<Material> = Vec::new();
        let mut eroded_materials: Vec<Material> = Vec::new();
        let mut noise_maps: HashMap<u64, NoiseField> = HashMap::new();
        let mut i: usize = 0;
        while i < materials.len()
            invariant
                0 <= i <= mats.len(),
                materials@ == mats,
                mats.len() <= MAX_MATERIALS,
                bounded_materials(mats),
                stratified_materials@ == mats.take(i as int).filter(is_strat_fn()),
                eroded_materials@ == mats.take(i as int).filter(is_eroded_fn()),
                noise_maps@ == noise_map_of(mats.take(i as int)),
                forall|t: int|
                    0 <= t < i ==> (!(#[trigger] mats[t]).is_stratified()
                        ==> mats[t].max_slope_spec() > 0),
                forall|m: Material|
                    mats.take(i as int).contains(m) ==> #[trigger] noise_maps@.contains_key(
                        m.id_spec(),
                    ),
            decreases mats.len() - i,
        {
            let m = materials[i];
            match m {
                Material::Eroded { max_slope, .. } => {
                    if max_slope <= 0 {
                        proof {
                            assert(!mats[i as int].is_stratified()
                                && mats[i as int].max_slope_spec() <= 0);
                        }
                        return Err(ConfigError::NonPositiveMaxSlope);
                    }
                },
                Material::Stratified { .. } => {},
            }
            noise_maps.insert(m.id(), m.noise());
            match m {
                Material::Stratified { .. } => stratified_materials.push(m),
                Material::Eroded { .. } => eroded_materials.push(m),
            }
            proof {
                reveal(Seq::filter);
                assert(mats.take(i as int + 1).drop_last() =~= mats.take(i as int));
                assert(mats.take(i as int + 1).last() == mats[i as int]);
                assert(stratified_materials@ =~= mats.take(i as int + 1).filter(is_strat_fn()));
                assert(eroded_materials@ =~= mats.take(i as int + 1).filter(is_eroded_fn()));
                assert(noise_maps@ == noise_map_of(mats.take(i as int + 1)));
                assert forall|mm: Material|
                    mats.take(i as int + 1).contains(mm) implies #[trigger] noise_maps@.contains_key(
                    mm.id_spec(),
                ) by {
                    let w = choose|w: int|
                        0 <= w < mats.take(i as int + 1).len() && #[trigger] mats.take(
                            i as int + 1,
                        )[w] == mm;
                    if w < i as int {
                        assert(mats.take(i as int).contains(mm));
                    }
                }
            }
            i = i + 1;
        }
        proof {
            assert(mats.take(mats.len() as int) =~= mats);
        }
        sort_materials(&mut stratified_materials, SortKey::ByDepth);
        sort_materials(&mut eroded_materials, SortKey::ByWeightDesc);
        let cfg = Config {
            noise,
            stratified_materials,
            eroded_materials,
            noise_maps,
            slope_cache: HashMap::new(),
            slope_mode,
            view_dist,
        };
        proof {
            broadcast use vstd::seq_lib::group_to_multiset_ensures;

            let strat_f = mats.filter(is_strat_fn());
            let eroded_f = mats.filter(is_eroded_fn());
            assert forall|t: int|
                0 <= t < cfg.stratified_materials@.len() implies {
                &&& (#[trigger] cfg.stratified_materials@[t]).is_stratified()
                &&& cfg.noise_maps@.contains_key(cfg.stratified_materials@[t].id_spec())
            } by {
                let m = cfg.stratified_materials@[t];
                assert(cfg.stratified_materials@.contains(m));
                assert(strat_f.contains(m));
                mats.lemma_filter_contains_rev(is_strat_fn(), m);
                let fi = choose|fi: int| 0 <= fi < strat_f.len() && strat_f[fi] == m;
                mats.lemma_filter_pred(is_strat_fn(), fi);
            }
            assert forall|t: int|
                0 <= t < cfg.eroded_materials@.len() implies {
                &&& !(#[trigger] cfg.eroded_materials@[t]).is_stratified()
                &&& cfg.eroded_materials@[t].max_slope_spec() > 0
                &&& 0 <= cfg.eroded_materials@[t].thickness_spec() <= VAL_MAX
                &&& cfg.noise_maps@.contains_key(cfg.eroded_materials@[t].id_spec())
            } by {
                let m = cfg.eroded_materials@[t];
                assert(cfg.eroded_materials@.contains(m));
                assert(eroded_f.contains(m));
                mats.lemma_filter_contains_rev(is_eroded_fn(), m);
                let fi = choose|fi: int| 0 <= fi < eroded_f.len() && eroded_f[fi] == m;
                mats.lemma_filter_pred(is_eroded_fn(), fi);
                let oi = choose|oi: int| 0 <= oi < mats.len() && mats[oi] == m;
                assert(!mats[oi].is_stratified() && mats[oi].max_slope_spec() > 0);
                assert(0 <= mats[oi].thickness_spec() <= VAL_MAX);
            }
            assert(cfg.stratified_materials@.len() <= MAX_MATERIALS) by {
                mats.lemma_filter_len(is_strat_fn());
                cfg.stratified_materials@.to_multiset_ensures();
                strat_f.to_multiset_ensures();
            }
            assert(cfg.eroded_materials@.len() <= MAX_MATERIALS) by {
                mats.lemma_filter_len(is_eroded_fn());
                cfg.eroded_materials@.to_multiset_ensures();
                eroded_f.to_multiset_ensures();
            }
            assert(cfg.slope_cache@ == Map::<u64, i64>::empty());
        }
        Ok(cfg)
    }
}

/// The built-in stratified materials, already in ascending-depth order:
/// bedrock, black stone, smooth basalt, deep slate, stone.
pub open spec fn builtin_stratified() -> Seq<Material> {
    seq![
        Material::Stratified { block: 33, depth: 0, thickness: (5 * SCALE) as i64, roughness: (10 * SCALE) as i64, id: 1 },
        Material::Stratified { block: 16093, depth: (4 * SCALE) as i64, thickness: (20 * SCALE) as i64, roughness: SCALE, id: 2 },
        Material::Stratified { block: 20336, depth: (20 * SCALE) as i64, thickness: (20 * SCALE) as i64, roughness: SCALE, id: 3 },
        Material::Stratified { block: 18683, depth: (40 * SCALE) as i64, thickness: (20 * SCALE) as i64, roughness: SCALE, id: 4 },
        Material::Stratified { block: 1, depth: (60 * SCALE) as i64, thickness: (20 * SCALE) as i64, roughness: SCALE, id: 5 },
    ]
}

/// The built-in eroded materials: grass-capped dirt, eroding away above a
/// 45-degree slope (`max_slope` is tan 45 = one, in fixed point).
pub open spec fn builtin_eroded() -> Seq<Material> {
    seq![
        Material::Eroded {
            block: 10,
            top: Some(9u16),
            weight: 100,
            thickness: (5 * SCALE) as i64,
            max_slope: SCALE,
            id: 6,
        },
    ]
}

/// The whole built-in material list, as handed to [`Config::new`].
pub open spec fn builtin_materials() -> Seq<Material> {
    builtin_stratified() + builtin_eroded()
}

/// The built-in base terrain-height field: turbulence-perturbed fractal
/// noise, shifted and scaled so columns cluster around a mean height of
/// about 40 with a bounded spread (`(((n + 1.4) * 0.5)^4) * 60 + 40`, in
/// fixed point).
pub open spec fn base_field() -> NoiseField {
    NoiseField::Add(
        Box::new(
            NoiseField::Multiply(
                Box::new(
                    NoiseField::Power(
                        Box::new(
                            NoiseField::Multiply(
                                Box::new(
                                    NoiseField::Add(
                                        Box::new(
                                            NoiseField::Turbulence {
                                                source: Box::new(
                                                    NoiseField::Fractal {
                                                        seed: 0x7E55AA,
                                                        frequency: (SCALE / 128) as i64,
                                                        octaves: 8,
                                                        persistence: 717,
                                                    },
                                                ),
                                                seed: 0xA533CC,
                                                frequency: (SCALE / 16) as i64,
                                                power: (10 * SCALE) as i64,
                                            },
                                        ),
                                        Box::new(NoiseField::Constant(1434)),
                                    ),
                                ),
                                Box::new(NoiseField::Constant((SCALE / 2) as i64)),
                            ),
                        ),
                        4,
                    ),
                ),
                Box::new(NoiseField::Constant((60 * SCALE) as i64)),
            ),
        ),
        Box::new(NoiseField::Constant((40 * SCALE) as i64)),
    )
}

/// Build a context with the built-in material catalog and base terrain
/// field: five stratified rock bands under one grass-capped dirt band that
/// erodes away above a 45-degree slope. Material identifiers are fixed
/// small integers, so generation is reproducible from configuration alone.
pub fn init(slope_mode: SlopeMode, view_dist: u8) -> (c: Config)
    ensures
        c.wf(),
        c.noise == base_field(),
        c.stratified_materials@ == builtin_stratified(),
        c.eroded_materials@ == builtin_eroded(),
        c.noise_maps@ == noise_map_of(builtin_materials()),
        c.slope_mode == slope_mode,
        c.view_dist == view_dist,
        c.slope_cache@ == Map::<u64, i64>::empty(),
{
    let base = NoiseField::Fractal {
        seed: 0x7E55AA,
        frequency: SCALE / 128,
        octaves: 8,
        persistence: 717,
    };
    let turb = NoiseField::Turbulence {
        source: Box::new(base),
        seed: 0xA533CC,
        frequency: SCALE / 16,
        power: 10 * SCALE,
    };
    let shifted = NoiseField::Add(Box::new(turb), Box::new(NoiseField::Constant(1434)));
    let halved = NoiseField::Multiply(Box::new(shifted), Box::new(NoiseField::Constant(SCALE / 2)));
    let curved = NoiseField::Power(Box::new(halved), 4);
    let scaled = NoiseField::Multiply(Box::new(curved), Box::new(NoiseField::Constant(60 * SCALE)));
    let noise = NoiseField::Add(Box::new(scaled), Box::new(NoiseField::Constant(40 * SCALE)));

    let mut materials: Vec<Material> = Vec::new();
    // bedrock
    materials.push(
        Material::Stratified { block: 33, depth: 0, thickness: 5 * SCALE, roughness: 10 * SCALE, id: 1 },
    );
    // black stone
    materials.push(
        Material::Stratified { block: 16093, depth: 4 * SCALE, thickness: 20 * SCALE, roughness: SCALE, id: 2 },
    );
    // smooth basalt
    materials.push(
        Material::Stratified { block: 20336, depth: 20 * SCALE, thickness: 20 * SCALE, roughness: SCALE, id: 3 },
    );
    // deep slate
    materials.push(
        Material::Stratified { block: 18683, depth: 40 * SCALE, thickness: 20 * SCALE, roughness: SCALE, id: 4 },
    );
    // stone
    materials.push(
        Material::Stratified { block: 1, depth: 60 * SCALE, thickness: 20 * SCALE, roughness: SCALE, id: 5 },
    );
    // dirt capped with grass, eroding away above a 45-degree slope
    materials.push(
        Material::Eroded {
            block: 10,
            top: Some(9),
            weight: 100,
            thickness: 5 * SCALE,
            max_slope: SCALE,
            id: 6,
        },
    );
    proof {
        assert(materials@ =~= builtin_materials());
        assert(valid_materials(materials@));
        assert(bounded_materials(materials@));
    }
    let ghost mats = materials@;
    let r = Config::new(noise, materials, slope_mode, view_dist);
    match r {
        Ok(c) => {
            proof {
                let s6 = builtin_materials();
                let s5 = builtin_stratified();
                let e1 = builtin_eroded();
                reveal(Seq::filter);
                assert(s6.drop_last() =~= s5);
                assert(s6.last() == e1[0]);
                lemma_filter_all(s5, is_strat_fn());
                s5.lemma_all_neg_filter_empty(is_eroded_fn());
                assert(s5.filter(is_eroded_fn()) =~= Seq::<Material>::empty());
                assert(mats.filter(is_strat_fn()) == s5);
                assert(mats.filter(is_eroded_fn()) =~= e1);
                assert(noise == base_field());
                assert(sorted_by_key(SortKey::ByDepth, s5));
                assert(forall|i: int, j: int|
                    0 <= i < j < s5.len() ==> key_of(SortKey::ByDepth, s5[i]) != key_of(
                        SortKey::ByDepth,
                        s5[j],
                    ));
                lemma_sorted_distinct_perm(SortKey::ByDepth, s5, c.stratified_materials@);
                lemma_sorted_distinct_perm(SortKey::ByWeightDesc, e1, c.eroded_materials@);
            }
            c
        },
        Err(_) => vstd::pervasive::unreached(),
    }
}

} // verus!

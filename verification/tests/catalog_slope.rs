//! Catalog construction, material accessors, slope modes and the cache.

use chunkgen::{
    eroded_band_height, init, slope, Config, ConfigError, Material, NoiseField, SlopeMode,
};

const SCALE: i64 = 1024;

fn strat(block: u16, depth_units: i64, id: u64) -> Material {
    Material::Stratified {
        block,
        depth: depth_units * SCALE,
        thickness: 10 * SCALE,
        roughness: SCALE,
        id,
    }
}

fn eroded(block: u16, weight: u32, id: u64) -> Material {
    Material::Eroded {
        block,
        top: None,
        weight,
        thickness: 5 * SCALE,
        max_slope: SCALE,
        id,
    }
}

fn depth_of(m: &Material) -> i64 {
    match m {
        Material::Stratified { depth, .. } => *depth,
        Material::Eroded { .. } => panic!("expected a stratified material"),
    }
}

fn weight_of(m: &Material) -> u32 {
    match m {
        Material::Eroded { weight, .. } => *weight,
        Material::Stratified { .. } => panic!("expected an eroded material"),
    }
}

#[test]
fn catalog_sorts_any_input_order() {
    // Unordered input: the built catalog orders stratified materials
    // non-decreasing by depth and eroded ones non-increasing by weight.
    let mats = vec![
        strat(4, 60, 1),
        eroded(20, 10, 6),
        strat(2, 0, 2),
        eroded(21, 200, 7),
        strat(3, 20, 3),
        eroded(22, 50, 8),
        strat(1, 80, 4),
    ];
    let cfg = Config::new(NoiseField::Constant(0), mats, SlopeMode::FULL, 4).unwrap();
    assert_eq!(cfg.stratified_materials.len(), 4);
    assert_eq!(cfg.eroded_materials.len(), 3);
    let depths: Vec<i64> = cfg.stratified_materials.iter().map(depth_of).collect();
    assert_eq!(depths, vec![0, 20 * SCALE, 60 * SCALE, 80 * SCALE]);
    let weights: Vec<u32> = cfg.eroded_materials.iter().map(weight_of).collect();
    assert_eq!(weights, vec![200, 50, 10]);
}

#[test]
fn catalog_at_largest_size_sorts() {
    // The largest catalog the context accepts: 64 materials, inserted in
    // descending depth, come out ascending.
    let mut mats = Vec::new();
    for i in 0..64u64 {
        mats.push(strat(i as u16, 63 - i as i64, i + 1));
    }
    let cfg = Config::new(NoiseField::Constant(0), mats, SlopeMode::FULL, 4).unwrap();
    assert_eq!(cfg.stratified_materials.len(), 64);
    let depths: Vec<i64> = cfg.stratified_materials.iter().map(depth_of).collect();
    for w in depths.windows(2) {
        assert!(w[0] <= w[1]);
    }
    assert_eq!(depths[0], 0);
    assert_eq!(depths[63], 63 * SCALE);
}

#[test]
fn catalog_rejects_non_positive_max_slope() {
    // An eroded material whose max_slope is zero is a configuration error,
    // found before any column is processed.
    let bad = Material::Eroded {
        block: 10,
        top: None,
        weight: 1,
        thickness: SCALE,
        max_slope: 0,
        id: 1,
    };
    let r = Config::new(NoiseField::Constant(0), vec![bad], SlopeMode::FULL, 4);
    match r {
        Err(e) => assert_eq!(e, ConfigError::NonPositiveMaxSlope),
        Ok(_) => panic!("a zero max_slope must be rejected"),
    }
}

#[test]
fn material_accessors() {
    let s = strat(33, 4, 9);
    assert_eq!(s.block(), 33);
    assert_eq!(s.thickness(), 10 * SCALE);
    assert_eq!(s.roughness(), SCALE);
    assert_eq!(s.top(), None);
    assert_eq!(s.id(), 9);
    let e = Material::Eroded {
        block: 10,
        top: Some(9),
        weight: 100,
        thickness: 5 * SCALE,
        max_slope: SCALE,
        id: 6,
    };
    assert_eq!(e.block(), 10);
    assert_eq!(e.top(), Some(9));
    // An eroded material's roughness is one, in fixed point.
    assert_eq!(e.roughness(), SCALE);
    assert_eq!(e.thickness(), 5 * SCALE);
    assert_eq!(e.id(), 6);
}

#[test]
fn slope_mode_offsets() {
    assert_eq!(
        SlopeMode::FULL.offsets(),
        vec![(-1, -1), (-1, 0), (-1, 1), (0, -1), (0, 1), (1, -1), (1, 0), (1, 1)]
    );
    assert_eq!(SlopeMode::VonNeumann.offsets(), vec![(-1, 0), (0, -1), (0, 1), (1, 0)]);
    assert_eq!(SlopeMode::MVonNeumann.offsets(), vec![(-1, -1), (-1, 1), (1, -1), (1, 1)]);
}

#[test]
fn eroded_height_boundaries() {
    // Flat ground gives the full nominal thickness, the threshold slope
    // gives zero, and the midpoint interpolates linearly.
    let m = Material::Eroded {
        block: 10,
        top: None,
        weight: 1,
        thickness: 5 * SCALE,
        max_slope: SCALE,
        id: 1,
    };
    assert_eq!(eroded_band_height(&m, 0), 5 * SCALE);
    assert_eq!(eroded_band_height(&m, SCALE), 0);
    assert_eq!(eroded_band_height(&m, 2 * SCALE), 0);
    assert_eq!(eroded_band_height(&m, SCALE / 2), 5 * SCALE / 2);
}

#[test]
fn slope_queries_are_cached_and_idempotent() {
    // Two slope queries at the same coordinates return bit-identical
    // results; the second hits the cache, adding no entry.
    let mut cfg = init(SlopeMode::FULL, 16);
    assert_eq!(cfg.slope_cache.len(), 0);
    let a = slope(&cfg.noise, &mut cfg.slope_cache, &cfg.slope_mode, 11, -7);
    assert_eq!(cfg.slope_cache.len(), 1);
    let b = slope(&cfg.noise, &mut cfg.slope_cache, &cfg.slope_mode, 11, -7);
    assert_eq!(cfg.slope_cache.len(), 1);
    assert_eq!(a, b);
    assert!(a >= 0);
    // A query at other coordinates grows the cache.
    let _ = slope(&cfg.noise, &mut cfg.slope_cache, &cfg.slope_mode, 12, -7);
    assert_eq!(cfg.slope_cache.len(), 2);
}

#[test]
fn constant_field_has_zero_slope() {
    let mut cfg =
        Config::new(NoiseField::Constant(3 * SCALE), vec![], SlopeMode::FULL, 4).unwrap();
    let s = slope(&cfg.noise, &mut cfg.slope_cache, &cfg.slope_mode, 5, 5);
    assert_eq!(s, 0);
}

#[test]
fn field_sampling_is_deterministic() {
    let cfg = init(SlopeMode::FULL, 16);
    let a = cfg.noise.sample(17 * SCALE, -3 * SCALE);
    let b = cfg.noise.sample(17 * SCALE, -3 * SCALE);
    assert_eq!(a, b);
}

#[test]
fn built_in_catalog_is_stable() {
    // The built-in catalog: five stratified bands sorted by depth, one
    // eroded band, stable ids assigned at construction.
    let cfg = init(SlopeMode::MVonNeumann, 8);
    assert_eq!(cfg.view_dist, 8);
    assert_eq!(cfg.stratified_materials.len(), 5);
    assert_eq!(cfg.eroded_materials.len(), 1);
    let depths: Vec<i64> = cfg.stratified_materials.iter().map(depth_of).collect();
    assert_eq!(depths, vec![0, 4 * SCALE, 20 * SCALE, 40 * SCALE, 60 * SCALE]);
    let ids: Vec<u64> = cfg.stratified_materials.iter().map(|m| m.id()).collect();
    assert_eq!(ids, vec![1, 2, 3, 4, 5]);
    assert_eq!(cfg.eroded_materials[0].id(), 6);
    assert_eq!(cfg.eroded_materials[0].top(), Some(9));
}

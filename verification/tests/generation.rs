//! End-to-end generation scenarios over small, hand-computable configs.

use chunkgen::{build_chunk_internal, init, Config, Emission, Material, NoiseField, SlopeMode};

const SCALE: i64 = 1024;

fn flat_config(total_height_units: i64, materials: Vec<Material>) -> Config {
    Config::new(
        NoiseField::Constant(total_height_units * SCALE),
        materials,
        SlopeMode::FULL,
        100,
    )
    .unwrap()
}

fn column_emissions(out: &[Emission], x: i32, z: i32) -> Vec<Emission> {
    out.iter().copied().filter(|e| e.x == x && e.z == z).collect()
}

#[test]
fn single_stratified_fills_to_total() {
    // One stratified material and no eroded ones: the single band takes the
    // exact remainder (the full total), and the walk emits one block per
    // cell with no caps.
    let mats = vec![Material::Stratified {
        block: 7,
        depth: 0,
        thickness: 5 * SCALE,
        roughness: SCALE,
        id: 1,
    }];
    let mut cfg = flat_config(10, mats);
    let out = build_chunk_internal(&mut cfg, 0, 0);
    let col = column_emissions(&out, 3, 4);
    assert_eq!(col.len(), 10);
    for (i, e) in col.iter().enumerate() {
        assert_eq!(e.y, i as i32);
        assert_eq!(e.block, 7);
    }
}

#[test]
fn end_to_end_flat_scenario() {
    // One stratified material (depth 0, thickness 5) and one eroded
    // material (weight 100, thickness 5, max_slope = tan 45 degrees = 1)
    // over a flat field of total height 10 and slope 0 everywhere: the
    // stratified band is clipped to height 5 by the merge, the eroded band
    // sits at full thickness 5 on top, and the cap block appears once at
    // y = 10, the exposed surface.
    let mats = vec![
        Material::Stratified { block: 1, depth: 0, thickness: 5 * SCALE, roughness: SCALE, id: 1 },
        Material::Eroded {
            block: 10,
            top: Some(9),
            weight: 100,
            thickness: 5 * SCALE,
            max_slope: SCALE,
            id: 2,
        },
    ];
    let mut cfg = flat_config(10, mats);
    let out = build_chunk_internal(&mut cfg, 0, 0);
    let col = column_emissions(&out, 0, 0);
    assert_eq!(col.len(), 11);
    for e in &col[0..5] {
        assert_eq!(e.block, 1);
    }
    for e in &col[5..10] {
        assert_eq!(e.block, 10);
    }
    for (i, e) in col[0..10].iter().enumerate() {
        assert_eq!(e.y, i as i32);
    }
    assert_eq!(col[10].y, 10);
    assert_eq!(col[10].block, 9);
}

#[test]
fn merge_with_no_eroded_materials_keeps_stratified_stack() {
    // With no eroded materials the demand is zero and the merged stack is
    // the stratified stack unmodified: the emissions of a flat column are
    // identical with and without the (empty) erosion pass.
    let mats = vec![Material::Stratified {
        block: 3,
        depth: 0,
        thickness: 4 * SCALE,
        roughness: SCALE,
        id: 1,
    }];
    let mut cfg = flat_config(6, mats);
    let out = build_chunk_internal(&mut cfg, 0, 0);
    let col = column_emissions(&out, 8, 8);
    assert_eq!(col.len(), 6);
    assert!(col.iter().all(|e| e.block == 3));
}

#[test]
fn erosion_demand_exceeding_stack_zeroes_every_band() {
    // The eroded demand (20) exceeds the stratified total (10): every
    // stratified band is zeroed and the whole column is eroded material.
    let mats = vec![
        Material::Stratified { block: 1, depth: 0, thickness: 5 * SCALE, roughness: SCALE, id: 1 },
        Material::Eroded {
            block: 10,
            top: Some(9),
            weight: 100,
            thickness: 20 * SCALE,
            max_slope: SCALE,
            id: 2,
        },
    ];
    let mut cfg = flat_config(10, mats);
    let out = build_chunk_internal(&mut cfg, 0, 0);
    let col = column_emissions(&out, 5, 5);
    assert_eq!(col.len(), 11);
    assert!(col[0..10].iter().all(|e| e.block == 10));
    assert_eq!(col[10].block, 9);
}

#[test]
fn cap_block_emitted_at_band_transition() {
    // Two eroded bands with caps over one stratified band, flat ground:
    // leaving the lower eroded band emits its cap one cell below the
    // boundary (a second emission for that cell), and the topmost band's
    // cap appears once more at the surface.
    let mats = vec![
        Material::Stratified { block: 1, depth: 0, thickness: 5 * SCALE, roughness: SCALE, id: 1 },
        Material::Eroded {
            block: 10,
            top: Some(9),
            weight: 200,
            thickness: 3 * SCALE,
            max_slope: SCALE,
            id: 2,
        },
        Material::Eroded {
            block: 11,
            top: Some(12),
            weight: 100,
            thickness: 2 * SCALE,
            max_slope: SCALE,
            id: 3,
        },
    ];
    let mut cfg = flat_config(10, mats);
    let out = build_chunk_internal(&mut cfg, 0, 0);
    let col = column_emissions(&out, 2, 9);
    let expected: Vec<(i32, u16)> = vec![
        (0, 1),
        (1, 1),
        (2, 1),
        (3, 1),
        (4, 1),
        (5, 10),
        (6, 10),
        (7, 10),
        (7, 9),
        (8, 11),
        (9, 11),
        (10, 12),
    ];
    let got: Vec<(i32, u16)> = col.iter().map(|e| (e.y, e.block)).collect();
    assert_eq!(got, expected);
}

#[test]
fn stratified_bands_always_fill_the_total() {
    // Band-sum: however the first band's private noise falls out, the last
    // stratified band takes the exact remainder (and clipping caps the
    // running sum), so a flat 10-unit column emits exactly 10 cells.
    let mats = vec![
        Material::Stratified { block: 1, depth: 0, thickness: 4 * SCALE, roughness: SCALE, id: 1 },
        Material::Stratified { block: 2, depth: 4 * SCALE, thickness: 20 * SCALE, roughness: SCALE, id: 2 },
    ];
    let mut cfg = flat_config(10, mats);
    let out = build_chunk_internal(&mut cfg, 0, 0);
    for x in 0..16 {
        for z in 0..16 {
            let col = column_emissions(&out, x, z);
            assert_eq!(col.len(), 10);
            assert!(col.iter().all(|e| e.block == 1 || e.block == 2));
        }
    }
}

#[test]
fn culling_skips_column_outside_render_distance() {
    // view_dist = 10 gives render_dist = 80; every column of the chunk at
    // chunk_x = 6 has world x in [96, 111], at or past 80 + 15 = 95, so
    // the whole chunk is skipped and nothing is emitted.
    let mut cfg = init(SlopeMode::FULL, 10);
    let out = build_chunk_internal(&mut cfg, 6, 0);
    assert!(out.is_empty());
}

#[test]
fn culling_boundary_is_exact() {
    // In the chunk at chunk_x = 5 world x runs from 80 to 95: x = 94 is
    // still generated, x = 95 (>= render_dist + 15) is skipped, and so is
    // the whole band z >= 95 in the z direction.
    let mut cfg = init(SlopeMode::FULL, 10);
    let out = build_chunk_internal(&mut cfg, 5, 0);
    assert!(!column_emissions(&out, 14, 0).is_empty());
    assert!(column_emissions(&out, 15, 0).is_empty());
}

#[test]
fn negative_side_culling() {
    // On the negative side columns with world x <= -render_dist + 1 are
    // skipped: at chunk_x = -6, world x runs from -96 to -81, all at or
    // below -79... except none: -81 < -79, so the whole chunk is skipped.
    let mut cfg = init(SlopeMode::FULL, 10);
    let out = build_chunk_internal(&mut cfg, -6, 0);
    assert!(out.is_empty());
}

#[test]
fn generation_is_deterministic() {
    // Two contexts built from the same configuration emit identical chunks.
    let mut a = init(SlopeMode::VonNeumann, 32);
    let mut b = init(SlopeMode::VonNeumann, 32);
    let out_a = build_chunk_internal(&mut a, 1, -2);
    let out_b = build_chunk_internal(&mut b, 1, -2);
    assert_eq!(out_a, out_b);
    // Re-generating the same chunk on the same context (with a warm slope
    // cache) also gives identical emissions.
    let out_c = build_chunk_internal(&mut a, 1, -2);
    assert_eq!(out_a, out_c);
}

#[test]
fn built_in_catalog_generates_terrain() {
    // The built-in base field keeps every column's height at 40 or above,
    // so every in-range column emits blocks, bottom-to-top.
    let mut cfg = init(SlopeMode::FULL, 16);
    let out = build_chunk_internal(&mut cfg, 0, 0);
    for x in 0..16 {
        for z in 0..16 {
            let col = column_emissions(&out, x, z);
            assert!(col.len() >= 30, "column ({x}, {z}) emitted {}", col.len());
            assert_eq!(col[0].y, 0);
        }
    }
}

//! Materials and per-column layers.
//!
//! A material is either *stratified* (a rock band at a fixed depth) or
//! *eroded* (surface overburden whose thickness shrinks with local slope).
//! Identifiers are assigned by the caller once, at catalog construction,
//! and stay stable for the lifetime of a context: they key the per-material
//! noise map, so generation is reproducible from configuration alone.

use vstd::prelude::*;
use crate::fixed::{SCALE, COORD_MAX, clamp_spec, tdiv, clamp_i128, tdiv_i128};
use crate::field::NoiseField;

verus! {

/// A terrain material. Heights, depths, thicknesses and slope tangents are
/// fixed-point (`SCALE` units per world unit).
#[derive(Clone, Copy)]
pub enum Material {
    /// A rock band beginning at a fixed world-height offset.
    Stratified { block: u16, depth: i64, thickness: i64, roughness: i64, id: u64 },
    /// Surface material carved away by slope; `top` is an optional cap
    /// block emitted only at the band's exposed upper surface.
    Eroded { block: u16, top: Option<u16>, weight: u32, thickness: i64, max_slope: i64, id: u64 },
}

/// One band of a column's stack: a material and its computed height.
#[derive(Clone, Copy)]
pub struct Layer {
    pub material: Material,
    pub height: i64,
}

impl Material {
    /// Whether this is a stratified material.
    pub open spec fn is_stratified(self) -> bool {
        self is Stratified
    }

    /// The start depth of a stratified material (zero for eroded ones).
    pub open spec fn depth_spec(self) -> int {
        match self {
            Material::Stratified { depth, .. } => depth as int,
            Material::Eroded { .. } => 0,
        }
    }

    /// The erosion priority of an eroded material (zero for stratified ones).
    pub open spec fn weight_spec(self) -> int {
        match self {
            Material::Stratified { .. } => 0,
            Material::Eroded { weight, .. } => weight as int,
        }
    }

    /// The slope tangent above which an eroded band fully erodes.
    pub open spec fn max_slope_spec(self) -> int {
        match self {
            Material::Stratified { .. } => 0,
            Material::Eroded { max_slope, .. } => max_slope as int,
        }
    }

    pub open spec fn block_spec(self) -> u16 {
        match self {
            Material::Stratified { block, .. } => block,
            Material::Eroded { block, .. } => block,
        }
    }

    pub open spec fn roughness_spec(self) -> int {
        match self {
            Material::Stratified { roughness, .. } => roughness as int,
            Material::Eroded { .. } => SCALE as int,
        }
    }

    pub open spec fn thickness_spec(self) -> int {
        match self {
            Material::Stratified { thickness, .. } => thickness as int,
            Material::Eroded { thickness, .. } => thickness as int,
        }
    }

    pub open spec fn top_spec(self) -> Option<u16> {
        match self {
            Material::Stratified { .. } => None,
            Material::Eroded { top, .. } => top,
        }
    }

    pub open spec fn id_spec(self) -> u64 {
        match self {
            Material::Stratified { id, .. } => id,
            Material::Eroded { id, .. } => id,
        }
    }

    /// The private thickness-variation field of this material: fractal
    /// noise seeded from the stable identifier, with frequency scaled by
    /// roughness, shifted to be non-negative and scaled to the nominal
    /// thickness.
    pub open spec fn noise_spec(self) -> NoiseField {
        NoiseField::Multiply(
            Box::new(
                NoiseField::Add(
                    Box::new(
                        NoiseField::Fractal {
                            seed: self.id_spec(),
                            frequency: clamp_spec(
                                tdiv(self.roughness_spec(), 128),
                                COORD_MAX as int,
                            ) as i64,
                            octaves: 6,
                            persistence: (SCALE / 2) as i64,
                        },
                    ),
                    Box::new(NoiseField::Constant(SCALE)),
                ),
            ),
            Box::new(NoiseField::Constant(self.thickness_spec() as i64)),
        )
    }

    /// The block id this material emits.
    pub fn block(&self) -> (r: u16)
        ensures
            r == self.block_spec(),
    {
        match self {
            Material::Stratified { block, .. } => *block,
            Material::Eroded { block, .. } => *block,
        }
    }

    /// The roughness factor controlling the material's own noise frequency;
    /// one (in fixed point) for eroded materials.
    pub fn roughness(&self) -> (r: i64)
        ensures
            r == self.roughness_spec(),
    {
        match self {
            Material::Stratified { roughness, .. } => *roughness,
            Material::Eroded { .. } => SCALE,
        }
    }

    /// The nominal band thickness.
    pub fn thickness(&self) -> (r: i64)
        ensures
            r == self.thickness_spec(),
    {
        match self {
            Material::Stratified { thickness, .. } => *thickness,
            Material::Eroded { thickness, .. } => *thickness,
        }
    }

    /// The cap block, if any; only eroded materials may have one.
    pub fn top(&self) -> (r: Option<u16>)
        ensures
            r == self.top_spec(),
    {
        match self {
            Material::Stratified { .. } => None,
            Material::Eroded { top, .. } => *top,
        }
    }

    /// The stable identifier, used as the noise-map key.
    pub fn id(&self) -> (r: u64)
        ensures
            r == self.id_spec(),
    {
        match self {
            Material::Stratified { id, .. } => *id,
            Material::Eroded { id, .. } => *id,
        }
    }

    /// Build this material's private thickness-variation field.
    pub fn noise(&self) -> (r: NoiseField)
        ensures
            r == self.noise_spec(),
    {
        let freq = clamp_i128(tdiv_i128(self.roughness() as i128, 128), COORD_MAX);
        let base = NoiseField::Fractal {
            seed: self.id(),
            frequency: freq,
            octaves: 6,
            persistence: SCALE / 2,
        };
        let shifted = NoiseField::Add(Box::new(base), Box::new(NoiseField::Constant(SCALE)));
        NoiseField::Multiply(Box::new(shifted), Box::new(NoiseField::Constant(self.thickness())))
    }
}

} // verus!

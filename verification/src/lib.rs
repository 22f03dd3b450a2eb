//! Procedural terrain-chunk generation: a deterministic, fixed-point core
//! that layers stratified rock bands, erodes surface material by local
//! slope, merges the two stacks, and emits one block id per vertical cell.
//!
//! All real-valued quantities (heights, thicknesses, slopes, noise samples)
//! are carried as fixed-point integers with [`fixed::SCALE`] units per
//! world-height unit, so every step of the algorithm is verified exactly.

pub mod fixed;
pub mod field;
pub mod material;
pub mod slope;
pub mod catalog;
pub mod context;
pub mod column;

pub use crate::field::NoiseField;
pub use crate::material::{Layer, Material};
pub use crate::catalog::{SortKey, sorted_by_key};
pub use crate::slope::{slope, SlopeMode};
pub use crate::context::{init, Config, ConfigError};
pub use crate::column::{build_chunk_internal, eroded_band_height, Emission};

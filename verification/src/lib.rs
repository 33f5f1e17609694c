//! Procedural terrain core for a spherical world: a geodesic icosphere
//! builder, a pole-capped rectangular globe mesh builder, and a cellular
//! shallow-water erosion model over a height field.
//!
//! Every simulation quantity (water, sediment, bedrock, flow) is a
//! nonnegative fixed-point number held in a `u64`, in units of
//! `1 / fixed::SCALE`. Negative intermediate results are clamped to zero and
//! oversized ones saturate, so no update can drive a stored quantity below
//! zero. Callers that render the meshes convert the integer data emitted
//! here to whatever floating-point layout their graphics stack expects.

pub mod erosion;
pub mod field;
pub mod fixed;
pub mod icosphere;
pub mod mode;
pub mod rectmesh;
pub mod sums;

//! A Whitted-style ray-tracing kernel, verified end to end.
//!
//! Geometry is carried in fixed-point coordinates (`fixed::FX_SCALE` steps per
//! unit), so every intersection and shading computation has an exact
//! mathematical meaning that the contracts state over `int`.

pub mod composites;
pub mod datastructures;
pub mod fixed;
pub mod primitives;
pub mod utils;
pub mod vec3;

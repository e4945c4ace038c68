//! A small CPU path tracer, verified with Verus.
//!
//! Every quantity that the renderer works with (coordinates, colors, ray
//! parameters) is a real number modelled in fixed-point arithmetic with 16
//! fractional bits, so that the whole pipeline -- sphere intersection, scene
//! aggregation, material scattering, the recursive integrator and the
//! sampling loop -- is ordinary integer code whose behaviour is stated and
//! proved exactly.

pub mod camera;
pub mod data;
pub mod fixed;
pub mod material;
pub mod math;
pub mod render;
pub mod world;

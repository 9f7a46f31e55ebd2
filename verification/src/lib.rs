//! An animated-composition core: trail entities that grow, shrink and recycle
//! a bounded point buffer under an impulse force model, a frame-indexed
//! message cycler, a simulation clock that owns both, and an arc-length
//! uniform sampler over flattened vector paths. Geometry is carried in fixed
//! integer coordinate units; rendering and windowing live outside the crate.

pub mod cycler;
pub mod geom;
pub mod model;
mod rng;
pub mod sampler;
pub mod trail;
pub mod vec2;

//! Simulation core of a 2D real-time engine: a spatial collision grid and a
//! CPU-driven particle simulation, both stepped once per frame over a shared
//! pool of spatial entities.
//!
//! All continuous quantities (seconds, world positions, velocities, colors,
//! angles) are fixed-point values: signed 64-bit counts of thousandths of a
//! unit. Arithmetic on them saturates at a large bound instead of wrapping, so
//! every frame function is total and deterministic given its inputs; the only
//! nondeterminism is the injected random sampler used for jittered values and
//! emitter cone directions.

pub mod collision;
pub mod fixed;
pub mod instance;
pub mod particle_system;
pub mod stages;
pub mod trig;
pub mod vecs;
pub mod window;

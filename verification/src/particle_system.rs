//! The CPU-driven particle simulation: per emitter, spawns, ages, moves,
//! colors, and retires a bounded pool of particle entities according to
//! time-varying and randomized parameter curves, respecting bursts,
//! loop/duration semantics, and despawn policy.

pub mod components;
pub mod sampling;
pub mod systems;
pub mod values;

//! The data of the particle simulation: the immutable per-emitter
//! configuration, the emitter's mutable run state, and the attributes of a
//! live particle.

use vstd::prelude::*;

use crate::fixed::FX_MAX;
use crate::instance::Instance2D;
use crate::particle_system::values::{
    color_over_time_wf, value_over_time_wf, ColorOverTime, JitteredValue, ValueOverTime,
};
use crate::vecs::Vec2Fx;

verus! {

/// A one-time extra spawn of `count` particles scheduled at a time offset
/// within a system's duration.
#[derive(Clone, Copy, Debug)]
pub struct ParticleBurst {
    /// The elapsed running time at which the burst fires, fixed-point
    /// seconds.
    pub time: i64,
    /// How many particles the burst spawns.
    pub count: u64,
}

impl ParticleBurst {
    /// A burst of `count` particles at time offset `time`.
    pub fn new(time: i64, count: u64) -> (r: ParticleBurst)
        ensures
            r == (ParticleBurst { time, count }),
    {
        ParticleBurst { time, count }
    }
}

/// The immutable configuration of one emitter.
#[derive(Clone, Debug)]
pub struct ParticleSystem {
    /// Identifier of the shape each particle renders as.
    pub shape_id: u32,
    /// Upper bound on simultaneously live particles of this emitter.
    pub max_particles: u64,
    /// Particles to spawn per second, sampled at the system's life
    /// percentage.
    pub spawn_rate_per_second: ValueOverTime,
    /// Scalar speed a particle starts with, jittered per particle.
    pub initial_velocity: JitteredValue,
    /// Acceleration along the particle's direction, sampled at the
    /// particle's life percentage.
    pub acceleration: ValueOverTime,
    /// Seconds a particle lives, jittered per particle; must sample
    /// positive.
    pub lifetime: JitteredValue,
    /// Distance from the emitter center a particle starts at, jittered per
    /// particle.
    pub spawn_radius: JitteredValue,
    /// Width of the emission cone, in fixed-point radians.
    pub emitter_shape: i64,
    /// Direction of the emission cone's bisector, in fixed-point radians.
    pub emitter_angle: i64,
    /// Particle color over its lifetime.
    pub color: ColorOverTime,
    /// Particle scale over its lifetime.
    pub scale: ValueOverTime,
    /// Whether the system restarts when its duration elapses.
    pub looping: bool,
    /// Loop period or one-shot duration, fixed-point seconds; must be
    /// positive.
    pub system_duration_seconds: i64,
    /// Optional cap on a particle's cumulative travel distance.
    pub max_distance: Option<i64>,
    /// One-time extra spawns, consumed in order, reset on loop.
    pub bursts: Vec<ParticleBurst>,
    /// Whether the global time-dilation resource applies to this system.
    pub use_scaled_time: bool,
    /// On completion of a non-looping system with no live particles:
    /// destroy the emitter entity, or merely pause it.
    pub despawn_on_finish: bool,
}

/// A usable configuration: positive duration, curves with positive periods,
/// well-formed gradient stops and jitter ranges, a lifetime that always
/// samples positive, and counts small enough that frame arithmetic stays in
/// machine range.
pub open spec fn particle_system_wf(s: ParticleSystem) -> bool {
    &&& s.system_duration_seconds > 0
    &&& s.max_particles <= 1_000_000_000
    &&& value_over_time_wf(s.spawn_rate_per_second)
    &&& value_over_time_wf(s.acceleration)
    &&& value_over_time_wf(s.scale)
    &&& color_over_time_wf(s.color)
    &&& s.initial_velocity.wf()
    &&& s.spawn_radius.wf()
    &&& s.lifetime.wf()
    &&& 1 <= s.lifetime.value <= FX_MAX as int
    &&& s.lifetime.value + s.lifetime.jitter_min >= 1
    &&& s.lifetime.value + s.lifetime.jitter_max <= FX_MAX as int
    &&& forall|i: int| 0 <= i < s.bursts@.len() ==> (#[trigger] s.bursts@[i]).count
        <= 1_000_000_000
}

/// The number of live particles an emitter currently owns.
#[derive(Clone, Copy, Debug, PartialEq, Eq, Structural)]
pub struct ParticleCount(pub u64);

/// The mutable clock of an emitter: elapsed time within the current loop
/// cycle, the whole second that time lies in, and how many particles the
/// per-second throttle has granted within that second.
#[derive(Clone, Copy, Debug, PartialEq, Eq, Structural)]
pub struct RunningState {
    /// Elapsed running time within the current cycle, fixed-point seconds;
    /// never negative.
    pub running_time: i64,
    /// The whole second `running_time` currently lies in.
    pub current_second: i64,
    /// Particles spawned by the throttle within the current second.
    pub spawned_this_second: u64,
}

/// A usable run state: non-negative time, and a throttle count small enough
/// that frame arithmetic stays in machine range.
pub open spec fn running_state_wf(rs: RunningState) -> bool {
    &&& rs.running_time >= 0
    &&& rs.spawned_this_second <= 1_000_000_000
}

/// The next unconsumed burst entry of an emitter.
#[derive(Clone, Copy, Debug, PartialEq, Eq, Structural)]
pub struct BurstIndex(pub u64);

/// A marker gating whether an emitter advances and spawns; in its absence
/// the emitter is paused while existing particles continue to age.
#[derive(Clone, Copy, Debug)]
pub struct Playing;

/// The global time-dilation factor, fixed-point (`1000` is real time).
#[derive(Clone, Copy, Debug, PartialEq, Eq, Structural)]
pub struct TimeScale(pub i64);

/// The record of a live particle: its owning emitter, its resolved total
/// lifetime, and its optional travel cap.
#[derive(Clone, Copy, Debug, PartialEq, Eq, Structural)]
pub struct Particle {
    /// The emitter entity that spawned this particle.
    pub parent_system: u64,
    /// Seconds this particle lives, sampled once at spawn; positive.
    pub max_lifetime: i64,
    /// Optional cap on cumulative travel distance, copied from the
    /// configuration.
    pub max_distance: Option<i64>,
}

/// Seconds a particle has existed, fixed-point; monotonically increasing.
#[derive(Clone, Copy, Debug, PartialEq, Eq, Structural)]
pub struct Lifetime(pub i64);

/// Scalar speed of a particle along its direction.
#[derive(Clone, Copy, Debug, PartialEq, Eq, Structural)]
pub struct Velocity(pub i64);

/// The unit direction a particle travels along, sampled once at spawn from
/// the emitter's cone.
#[derive(Clone, Copy, Debug, PartialEq, Eq, Structural)]
pub struct Direction(pub Vec2Fx);

impl Direction {
    /// A direction from its vector.
    pub fn new(dir: Vec2Fx) -> (r: Direction)
        ensures
            r == Direction(dir),
    {
        Direction(dir)
    }
}

/// Cumulative scalar path length a particle has traveled.
#[derive(Clone, Copy, Debug, PartialEq, Eq, Structural)]
pub struct DistanceTraveled(pub i64);

/// The world position particles of an emitter spawn around.
#[derive(Clone, Copy, Debug, PartialEq, Eq, Structural)]
pub struct EmitterPosition(pub Vec2Fx);

/// An emitter entity as the store hands it to the particle systems: its
/// identity, position, configuration, and mutable run state.
#[derive(Clone, Debug)]
pub struct Emitter {
    /// The emitter's identity in the store.
    pub entity: u64,
    /// Where particles spawn from.
    pub position: EmitterPosition,
    /// The immutable configuration.
    pub config: ParticleSystem,
    /// Live particles this emitter currently owns.
    pub particle_count: ParticleCount,
    /// The emitter's clock and per-second throttle state.
    pub running_state: RunningState,
    /// The next unconsumed burst entry.
    pub burst_index: BurstIndex,
    /// Whether the [`Playing`] marker is present.
    pub playing: bool,
}

/// A usable emitter: well-formed configuration and run state, and a count
/// small enough that a frame's additions stay in machine range.
pub open spec fn emitter_wf(e: Emitter) -> bool {
    &&& particle_system_wf(e.config)
    &&& running_state_wf(e.running_state)
    &&& e.particle_count.0 <= 0x1000_0000_0000_0000
}

/// A live particle entity: its renderable attributes plus simulation state.
#[derive(Clone, Copy, Debug)]
pub struct ParticleEntity {
    /// The renderable snapshot: position, rotation, scale, color, shape.
    pub instance: Instance2D,
    /// The particle record: parent, resolved lifetime and travel cap.
    pub particle: Particle,
    /// Seconds since spawn.
    pub lifetime: Lifetime,
    /// Scalar speed along the direction.
    pub velocity: Velocity,
    /// Travel direction, sampled at spawn.
    pub direction: Direction,
    /// Cumulative path length traveled.
    pub distance: DistanceTraveled,
}

} // verus!

//! The per-frame particle systems: spawn, age, color, transform, clean up.
//!
//! Each system is a function over the emitters and particles the entity
//! store hands it, plus the frame's elapsed time and the optional global
//! time scale. Everything except the random draws of a spawn is
//! deterministic, and the contracts pin the deterministic part exactly.

use vstd::prelude::*;

use crate::fixed::{
    fx_add, fx_add_spec, fx_div, fx_div_spec, fx_floor_units, fx_floor_units_spec, fx_frac,
    fx_frac_spec, fx_mul, fx_mul_spec, fx_sub, fx_sub_spec, FX_MAX, FX_ONE,
};
use crate::instance::Instance2D;
use crate::particle_system::components::{
    emitter_wf, particle_system_wf, running_state_wf, BurstIndex, Direction, DistanceTraveled,
    Emitter, Lifetime, Particle, ParticleCount, ParticleEntity, ParticleSystem, RunningState,
    TimeScale, Velocity,
};
use crate::particle_system::sampling::sample_range_i64;
use crate::particle_system::values::{
    color_at_pct_spec, gradient_sample_spec, value_at_pct_spec, ColorOverTime,
};
use crate::trig::{cos_fx, cos_fx_spec, sin_fx, sin_fx_spec};
use crate::vecs::{vec2_dist_spec, Vec2Fx};

verus! {

/// The effective time multiplier for a system: the global time scale when
/// the system opts in and one is present, real time otherwise.
pub open spec fn effective_time_scale_spec(use_scaled: bool, ts: Option<TimeScale>) -> int {
    if use_scaled {
        match ts {
            Some(t) => t.0 as int,
            None => FX_ONE as int,
        }
    } else {
        FX_ONE as int
    }
}

/// A usable time scale: absent, or a non-negative dilation factor.
pub open spec fn time_scale_wf(ts: Option<TimeScale>) -> bool {
    match ts {
        Some(t) => t.0 >= 0,
        None => true,
    }
}

/// The effective time multiplier for a system.
pub fn effective_time_scale(use_scaled: bool, ts: &Option<TimeScale>) -> (r: i64)
    ensures
        r as int == effective_time_scale_spec(use_scaled, *ts),
{
    if use_scaled {
        match ts {
            Some(t) => t.0,
            None => FX_ONE,
        }
    } else {
        FX_ONE
    }
}

/// What becomes of an emitter after a frame's spawn pass.
#[derive(Clone, Copy, Debug, PartialEq, Eq, Structural)]
pub enum EmitterFate {
    /// The emitter keeps playing.
    Active,
    /// A non-looping system finished with no live particles and pauses:
    /// its `Playing` marker is removed but the entity persists.
    Completed,
    /// A non-looping system finished with no live particles and is
    /// destroyed.
    Despawn,
}

/// The outcome of one emitter's spawn decision for a frame: its new clock
/// and throttle state, the next burst entry, how many particles the
/// throttle and the bursts each grant, and the emitter's fate.
#[derive(Clone, Copy, Debug, PartialEq, Eq, Structural)]
pub struct TickOutcome {
    /// The clock and throttle state after the frame.
    pub running_state: RunningState,
    /// The next unconsumed burst entry after the frame.
    pub burst_index: u64,
    /// Particles granted by the per-second throttle this frame.
    pub to_spawn: u64,
    /// Particles granted by a fired burst this frame (not counted by the
    /// throttle).
    pub extra: u64,
    /// What becomes of the emitter.
    pub fate: EmitterFate,
}

/// The spawn-count decision once the clock has been advanced and loop
/// completion has been handled: capacity check, throttled spawn count,
/// burst consumption, and the at-least-one guard against starvation at
/// spawn rates below one per second.
pub open spec fn spawn_phase_spec(sys: ParticleSystem, count: u64, rs: RunningState, bi: u64)
    -> TickOutcome
    recommends
        particle_system_wf(sys),
        running_state_wf(rs),
{
    if count >= sys.max_particles {
        TickOutcome {
            running_state: rs,
            burst_index: bi,
            to_spawn: 0,
            extra: 0,
            fate: EmitterFate::Active,
        }
    } else {
        let pct = fx_div_spec(rs.running_time as int, sys.system_duration_seconds as int);
        let rate = value_at_pct_spec(sys.spawn_rate_per_second, pct);
        let frac = fx_frac_spec(rs.running_time as int);
        let raw = fx_mul_spec(frac, rate) - (rs.spawned_this_second as int) * (FX_ONE as int);
        let remaining = sys.max_particles as int - count;
        let base = if raw < 0 {
            0
        } else if raw / (FX_ONE as int) <= remaining {
            raw / (FX_ONE as int)
        } else {
            remaining
        };
        let fired = bi < sys.bursts@.len() && rs.running_time >= sys.bursts@[bi as int].time;
        let extra = if fired {
            sys.bursts@[bi as int].count as int
        } else {
            0
        };
        let bi2 = if fired {
            bi as int + 1
        } else {
            bi as int
        };
        let to_spawn = if base == 0 && rs.spawned_this_second == 0 && rate > 0 {
            1
        } else {
            base
        };
        TickOutcome {
            running_state: RunningState {
                running_time: rs.running_time,
                current_second: rs.current_second,
                spawned_this_second: (rs.spawned_this_second + to_spawn) as u64,
            },
            burst_index: bi2 as u64,
            to_spawn: to_spawn as u64,
            extra: extra as u64,
            fate: EmitterFate::Active,
        }
    }
}

/// One emitter's whole spawn decision for a frame: advance the clock by the
/// scaled delta, roll the per-second throttle window, wrap or finish at the
/// end of the system's duration, then decide the spawn counts.
pub open spec fn spawn_tick_spec(
    sys: ParticleSystem,
    count: u64,
    rs: RunningState,
    bi: u64,
    delta: int,
    ts: Option<TimeScale>,
) -> TickOutcome
    recommends
        particle_system_wf(sys),
        running_state_wf(rs),
        delta >= 0,
        time_scale_wf(ts),
{
    let scale = effective_time_scale_spec(sys.use_scaled_time, ts);
    let rt1 = fx_add_spec(rs.running_time as int, fx_mul_spec(delta, scale));
    let sec1 = fx_floor_units_spec(rt1);
    let cs1 = if sec1 > rs.current_second as int {
        sec1
    } else {
        rs.current_second as int
    };
    let sps1 = if sec1 > rs.current_second as int {
        0
    } else {
        rs.spawned_this_second as int
    };
    if rt1 >= sys.system_duration_seconds as int {
        if sys.looping {
            let rt2 = fx_sub_spec(rt1, sys.system_duration_seconds as int);
            spawn_phase_spec(
                sys,
                count,
                RunningState {
                    running_time: rt2 as i64,
                    current_second: fx_floor_units_spec(rt2) as i64,
                    spawned_this_second: 0,
                },
                0,
            )
        } else {
            let fate = if count == 0 {
                if sys.despawn_on_finish {
                    EmitterFate::Despawn
                } else {
                    EmitterFate::Completed
                }
            } else {
                EmitterFate::Active
            };
            TickOutcome {
                running_state: RunningState {
                    running_time: rt1 as i64,
                    current_second: cs1 as i64,
                    spawned_this_second: sps1 as u64,
                },
                burst_index: bi,
                to_spawn: 0,
                extra: 0,
                fate,
            }
        }
    } else {
        spawn_phase_spec(
            sys,
            count,
            RunningState {
                running_time: rt1 as i64,
                current_second: cs1 as i64,
                spawned_this_second: sps1 as u64,
            },
            bi,
        )
    }
}

/// The spawn-count decision once the clock has been advanced.
fn spawn_phase(sys: &ParticleSystem, count: u64, rs: RunningState, bi: u64) -> (o: TickOutcome)
    requires
        particle_system_wf(*sys),
        running_state_wf(rs),
        count <= 0x1000_0000_0000_0000,
    ensures
        o == spawn_phase_spec(*sys, count, rs, bi),
        running_state_wf(o.running_state),
        o.running_state.running_time == rs.running_time,
        o.to_spawn <= 0x1_0000_0000,
        o.extra <= 0x1_0000_0000,
        count < sys.max_particles ==> count + o.to_spawn <= sys.max_particles,
        count >= sys.max_particles ==> o.to_spawn == 0 && o.extra == 0,
{
    if count >= sys.max_particles {
        return TickOutcome {
            running_state: rs,
            burst_index: bi,
            to_spawn: 0,
            extra: 0,
            fate: EmitterFate::Active,
        };
    }
    let pct = fx_div(rs.running_time, sys.system_duration_seconds);
    let rate = sys.spawn_rate_per_second.at_lifetime_pct(pct);
    let frac = fx_frac(rs.running_time);
    let prod = fx_mul(frac, rate);
    let spsm: i64 = (rs.spawned_this_second as i64) * FX_ONE;
    let raw: i64 = prod - spsm;
    let remaining: u64 = sys.max_particles - count;
    let base: u64 = if raw < FX_ONE {
        0
    } else {
        let q: u64 = (raw as u64) / (FX_ONE as u64);
        if q <= remaining {
            q
        } else {
            remaining
        }
    };
    let fired: bool = bi < (sys.bursts.len() as u64) && rs.running_time
        >= sys.bursts[bi as usize].time;
    let extra: u64 = if fired {
        sys.bursts[bi as usize].count
    } else {
        0
    };
    let bi2: u64 = if fired {
        bi + 1
    } else {
        bi
    };
    let to_spawn: u64 = if base == 0 && rs.spawned_this_second == 0 && rate > 0 {
        1
    } else {
        base
    };
    proof {
        if to_spawn > 0 && !(base == 0 && rs.spawned_this_second == 0 && rate > 0) {
            vstd::arithmetic::div_mod::lemma_fundamental_div_mod(raw as int, FX_ONE as int);
            vstd::arithmetic::div_mod::lemma_mod_bound(raw as int, FX_ONE as int);
        }
    }
    TickOutcome {
        running_state: RunningState {
            running_time: rs.running_time,
            current_second: rs.current_second,
            spawned_this_second: rs.spawned_this_second + to_spawn,
        },
        burst_index: bi2,
        to_spawn,
        extra,
        fate: EmitterFate::Active,
    }
}

/// One emitter's whole spawn decision for a frame.
pub fn tick_emitter(
    sys: &ParticleSystem,
    count: u64,
    rs: RunningState,
    bi: u64,
    delta: i64,
    ts: &Option<TimeScale>,
) -> (o: TickOutcome)
    requires
        particle_system_wf(*sys),
        running_state_wf(rs),
        count <= 0x1000_0000_0000_0000,
        delta >= 0,
        time_scale_wf(*ts),
    ensures
        o == spawn_tick_spec(*sys, count, rs, bi, delta as int, *ts),
        running_state_wf(o.running_state),
        o.to_spawn <= 0x1_0000_0000,
        o.extra <= 0x1_0000_0000,
        count < sys.max_particles ==> count + o.to_spawn <= sys.max_particles,
        count >= sys.max_particles ==> o.to_spawn == 0 && o.extra == 0,
{
    let scale = effective_time_scale(sys.use_scaled_time, ts);
    proof {
        crate::fixed::lemma_fx_mul_nonneg(delta as int, scale as int);
    }
    let rt1 = fx_add(rs.running_time, fx_mul(delta, scale));
    let sec1 = fx_floor_units(rt1);
    let cs1: i64 = if sec1 > rs.current_second {
        sec1
    } else {
        rs.current_second
    };
    let sps1: u64 = if sec1 > rs.current_second {
        0
    } else {
        rs.spawned_this_second
    };
    if rt1 >= sys.system_duration_seconds {
        if sys.looping {
            let rt2 = fx_sub(rt1, sys.system_duration_seconds);
            let cs2 = fx_floor_units(rt2);
            spawn_phase(
                sys,
                count,
                RunningState { running_time: rt2, current_second: cs2, spawned_this_second: 0 },
                0,
            )
        } else {
            let fate = if count == 0 {
                if sys.despawn_on_finish {
                    EmitterFate::Despawn
                } else {
                    EmitterFate::Completed
                }
            } else {
                EmitterFate::Active
            };
            TickOutcome {
                running_state: RunningState {
                    running_time: rt1,
                    current_second: cs1,
                    spawned_this_second: sps1,
                },
                burst_index: bi,
                to_spawn: 0,
                extra: 0,
                fate,
            }
        }
    } else {
        spawn_phase(
            sys,
            count,
            RunningState { running_time: rt1, current_second: cs1, spawned_this_second: sps1 },
            bi,
        )
    }
}

/// The particle a spawn draw builds, as a function of the emitter's
/// configuration, its position, and the four random samples drawn at spawn:
/// the cone offset `unit` (thousandths across the cone, centered), the
/// spawn distance, the initial speed, and the total lifetime. The direction
/// is the unit vector of `unit * emitter_shape + emitter_angle` radians;
/// the position is the emitter position pushed that far along it; scale and
/// color come from their curves at life percentage zero.
pub open spec fn make_particle_spec(
    sys: ParticleSystem,
    pos: Vec2Fx,
    parent: u64,
    unit: int,
    radius: int,
    vel: int,
    life: int,
) -> ParticleEntity {
    let radian = fx_add_spec(fx_mul_spec(unit, sys.emitter_shape as int), sys.emitter_angle as int);
    let dir = Vec2Fx { x: cos_fx_spec(radian) as i64, y: sin_fx_spec(radian) as i64 };
    let position = Vec2Fx {
        x: fx_add_spec(pos.x as int, fx_mul_spec(dir.x as int, radius)) as i64,
        y: fx_add_spec(pos.y as int, fx_mul_spec(dir.y as int, radius)) as i64,
    };
    let scale0 = value_at_pct_spec(sys.scale, 0);
    ParticleEntity {
        instance: Instance2D {
            position,
            rotation: 0,
            scale: Vec2Fx { x: scale0 as i64, y: scale0 as i64 },
            color: color_at_pct_spec(sys.color, 0),
            shape: sys.shape_id,
            outline: None,
        },
        particle: Particle {
            parent_system: parent,
            max_lifetime: life as i64,
            max_distance: sys.max_distance,
        },
        lifetime: Lifetime(0),
        velocity: Velocity(vel as i64),
        direction: Direction(dir),
        distance: DistanceTraveled(0),
    }
}

/// Builds the particle determined by the given spawn samples.
pub fn make_particle(
    sys: &ParticleSystem,
    pos: Vec2Fx,
    parent: u64,
    unit: i64,
    radius: i64,
    vel: i64,
    life: i64,
) -> (p: ParticleEntity)
    requires
        particle_system_wf(*sys),
    ensures
        p == make_particle_spec(*sys, pos, parent, unit as int, radius as int, vel as int,
        life as int),
{
    let radian = fx_add(fx_mul(unit, sys.emitter_shape), sys.emitter_angle);
    let dir = Vec2Fx { x: cos_fx(radian), y: sin_fx(radian) };
    let position = Vec2Fx {
        x: fx_add(pos.x, fx_mul(dir.x, radius)),
        y: fx_add(pos.y, fx_mul(dir.y, radius)),
    };
    let scale0 = sys.scale.at_lifetime_pct(0);
    let color0 = sys.color.at_lifetime_pct(0);
    ParticleEntity {
        instance: Instance2D {
            position,
            rotation: 0,
            scale: Vec2Fx { x: scale0, y: scale0 },
            color: color0,
            shape: sys.shape_id,
            outline: None,
        },
        particle: Particle { parent_system: parent, max_lifetime: life, max_distance: sys.max_distance },
        lifetime: Lifetime(0),
        velocity: Velocity(vel),
        direction: Direction(dir),
        distance: DistanceTraveled(0),
    }
}

/// Whether a particle is one that a spawn draw from this configuration at
/// this position could have produced: some admissible cone offset, spawn
/// distance, speed and lifetime samples build exactly this particle.
pub open spec fn spawned_from(p: ParticleEntity, sys: ParticleSystem, pos: Vec2Fx, parent: u64)
    -> bool {
    exists|unit: int, radius: int, vel: int, life: int|
        {
            &&& -500 <= unit < 500
            &&& sys.spawn_radius.possible_sample(radius)
            &&& sys.initial_velocity.possible_sample(vel)
            &&& sys.lifetime.possible_sample(life)
            &&& p == make_particle_spec(sys, pos, parent, unit, radius, vel, life)
        }
}

/// Spawns one particle: draws the cone offset, spawn distance, speed and
/// lifetime, and builds the particle they determine.
pub fn spawn_particle(sys: &ParticleSystem, pos: Vec2Fx, parent: u64) -> (p: ParticleEntity)
    requires
        particle_system_wf(*sys),
    ensures
        spawned_from(p, *sys, pos, parent),
        p.lifetime.0 == 0,
        p.distance.0 == 0,
        p.particle.parent_system == parent,
        p.particle.max_lifetime >= 1,
{
    let unit = sample_range_i64(-500, 500);
    let radius = sys.spawn_radius.get_value();
    let vel = sys.initial_velocity.get_value();
    let life = sys.lifetime.get_value();
    let p = make_particle(sys, pos, parent, unit, radius, vel, life);
    proof {
        assert(spawned_from(p, *sys, pos, parent)) by {
            assert({
                &&& -500 <= (unit as int) && (unit as int) < 500
                &&& sys.spawn_radius.possible_sample(radius as int)
                &&& sys.initial_velocity.possible_sample(vel as int)
                &&& sys.lifetime.possible_sample(life as int)
                &&& p == make_particle_spec(*sys, pos, parent, unit as int, radius as int,
                vel as int, life as int)
            });
        }
        if sys.lifetime.jitter_min < sys.lifetime.jitter_max {
            let s = choose|s: int|
                sys.lifetime.jitter_min <= s < sys.lifetime.jitter_max && (life as int)
                    == fx_add_spec(sys.lifetime.value as int, s);
            assert(1 <= sys.lifetime.value + s <= FX_MAX as int);
            assert(life >= 1);
        }
    }
    p
}

/// The spawn decision an emitter reaches this frame (zero spawns when it is
/// not playing).
pub open spec fn tick_of(e: Emitter, delta: int, ts: Option<TimeScale>) -> TickOutcome {
    spawn_tick_spec(e.config, e.particle_count.0, e.running_state, e.burst_index.0, delta, ts)
}

/// How many particles an emitter spawns this frame.
pub open spec fn spawned_of(e: Emitter, delta: int, ts: Option<TimeScale>) -> int {
    if e.playing {
        tick_of(e, delta, ts).to_spawn + tick_of(e, delta, ts).extra
    } else {
        0
    }
}

/// The emitter after its spawn pass: the new clock and throttle state, the
/// consumed burst entry, the count grown by this frame's spawns, and the
/// `Playing` marker kept only while the fate stays active.
pub open spec fn stepped_emitter(e: Emitter, delta: int, ts: Option<TimeScale>) -> Emitter {
    let o = tick_of(e, delta, ts);
    Emitter {
        particle_count: ParticleCount((e.particle_count.0 + o.to_spawn + o.extra) as u64),
        running_state: o.running_state,
        burst_index: BurstIndex(o.burst_index),
        playing: o.fate == EmitterFate::Active,
        ..e
    }
}

/// What one emitter contributes to the post-spawn emitter list: itself
/// untouched when paused, nothing when despawned, its stepped self
/// otherwise.
pub open spec fn spawner_step_of(e: Emitter, delta: int, ts: Option<TimeScale>) -> Seq<Emitter> {
    if !e.playing {
        seq![e]
    } else if tick_of(e, delta, ts).fate == EmitterFate::Despawn {
        Seq::empty()
    } else {
        seq![stepped_emitter(e, delta, ts)]
    }
}

/// The emitter list after the spawn pass, in order: paused emitters kept,
/// finished despawning emitters removed, the rest stepped.
pub open spec fn spawner_emitters_spec(ems: Seq<Emitter>, delta: int, ts: Option<TimeScale>)
    -> Seq<Emitter>
    decreases ems.len(),
{
    if ems.len() == 0 {
        Seq::empty()
    } else {
        spawner_emitters_spec(ems.drop_last(), delta, ts) + spawner_step_of(
            ems.last(),
            delta,
            ts,
        )
    }
}

/// Total particles the spawn pass creates across an emitter list.
pub open spec fn total_spawned_spec(ems: Seq<Emitter>, delta: int, ts: Option<TimeScale>) -> int
    decreases ems.len(),
{
    if ems.len() == 0 {
        0
    } else {
        total_spawned_spec(ems.drop_last(), delta, ts) + spawned_of(ems.last(), delta, ts)
    }
}

/// Whether a particle was freshly spawned this frame by one of the given
/// emitters.
pub open spec fn fresh_spawn(
    p: ParticleEntity,
    ems: Seq<Emitter>,
    delta: int,
    ts: Option<TimeScale>,
) -> bool {
    exists|i: int|
        0 <= i < ems.len() && (#[trigger] ems[i]).playing && spawned_from(
            p,
            ems[i].config,
            ems[i].position.0,
            ems[i].entity,
        )
}

/// The spawn pass of a frame. Every playing emitter advances its clock,
/// wraps or finishes at the end of its duration, and spawns the particles
/// its throttle and bursts grant; finished despawning emitters leave the
/// list, finished pausing emitters lose their `Playing` marker. New
/// particles are appended to the particle list in emitter order.
pub fn particle_spawner(
    emitters: &mut Vec<Emitter>,
    particles: &mut Vec<ParticleEntity>,
    delta: i64,
    time_scale: &Option<TimeScale>,
)
    requires
        delta >= 0,
        time_scale_wf(*time_scale),
        forall|i: int| 0 <= i < old(emitters)@.len() ==> emitter_wf(#[trigger] old(emitters)@[i]),
    ensures
        final(emitters)@ == spawner_emitters_spec(old(emitters)@, delta as int, *time_scale),
        final(particles)@.len() == old(particles)@.len() + total_spawned_spec(
            old(emitters)@,
            delta as int,
            *time_scale,
        ),
        forall|j: int|
            0 <= j < old(particles)@.len() ==> final(particles)@[j] == old(particles)@[j],
        forall|j: int|
            old(particles)@.len() <= j < final(particles)@.len() ==> fresh_spawn(
                #[trigger] final(particles)@[j],
                old(emitters)@,
                delta as int,
                *time_scale,
            ),
{
    let ghost old_ems = emitters@;
    let ghost old_parts = particles@;
    let ghost old_plen = particles@.len();
    let n = emitters.len();
    let mut out: Vec<Emitter> = Vec::new();
    let mut k: usize = 0;
    proof {
        assert(old_ems.subrange(0, 0) =~= Seq::<Emitter>::empty());
        assert(old_ems.subrange(0, n as int) =~= old_ems);
    }
    while k < n
        invariant
            k <= n,
            n == old_ems.len(),
            emitters@ =~= old_ems.subrange(k as int, n as int),
            forall|i: int| 0 <= i < old_ems.len() ==> emitter_wf(#[trigger] old_ems[i]),
            delta >= 0,
            time_scale_wf(*time_scale),
            out@ == spawner_emitters_spec(old_ems.subrange(0, k as int), delta as int,
            *time_scale),
            old_plen <= particles@.len(),
            particles@.len() == old_plen + total_spawned_spec(
                old_ems.subrange(0, k as int),
                delta as int,
                *time_scale,
            ),
            old_plen == old_parts.len(),
            forall|j: int| 0 <= j < old_plen ==> particles@[j] == old_parts[j],
            forall|j: int|
                old_plen <= j < particles@.len() ==> fresh_spawn(
                    #[trigger] particles@[j],
                    old_ems,
                    delta as int,
                    *time_scale,
                ),
        decreases n - k,
    {
        let ghost prefix = old_ems.subrange(0, k as int);
        let ghost next = old_ems.subrange(0, k as int + 1);
        proof {
            assert(next.drop_last() =~= prefix);
            assert(emitters@[0] == old_ems[k as int]);
        }
        let e = emitters.remove(0);
        proof {
            assert(emitters@ =~= old_ems.subrange(k as int + 1, n as int));
        }
        if !e.playing {
            out.push(e);
        } else {
            let o = tick_emitter(
                &e.config,
                e.particle_count.0,
                e.running_state,
                e.burst_index.0,
                delta,
                time_scale,
            );
            let total: u64 = o.to_spawn + o.extra;
            let ghost pbase = particles@.len();
            let ghost psnap = particles@;
            proof {
                assert(forall|j: int|
                    old_plen <= j < pbase ==> fresh_spawn(
                        #[trigger] psnap[j],
                        old_ems,
                        delta as int,
                        *time_scale,
                    ));
                assert(forall|j: int| 0 <= j < old_plen ==> psnap[j] == old_parts[j]);
            }
            let mut s: u64 = 0;
            while s < total
                invariant
                    s <= total,
                    particle_system_wf(e.config),
                    particles@.len() == pbase + s,
                    pbase == psnap.len(),
                    forall|j: int| 0 <= j < pbase ==> particles@[j] == psnap[j],
                    forall|j: int|
                        pbase <= j < particles@.len() ==> spawned_from(
                            #[trigger] particles@[j],
                            e.config,
                            e.position.0,
                            e.entity,
                        ),
                decreases total - s,
            {
                let p = spawn_particle(&e.config, e.position.0, e.entity);
                particles.push(p);
                s = s + 1;
            }
            proof {
                assert forall|j: int|
                    old_plen <= j < particles@.len() implies fresh_spawn(
                    #[trigger] particles@[j],
                    old_ems,
                    delta as int,
                    *time_scale,
                ) by {
                    if j < pbase {
                        assert(particles@[j] == psnap[j]);
                        assert(fresh_spawn(psnap[j], old_ems, delta as int, *time_scale));
                    } else {
                        assert(spawned_from(
                            particles@[j],
                            old_ems[k as int].config,
                            old_ems[k as int].position.0,
                            old_ems[k as int].entity,
                        ));
                    }
                }
            }
            if matches!(o.fate, EmitterFate::Despawn) {
            } else {
                let stepped = Emitter {
                    entity: e.entity,
                    position: e.position,
                    config: e.config,
                    particle_count: ParticleCount(e.particle_count.0 + total),
                    running_state: o.running_state,
                    burst_index: BurstIndex(o.burst_index),
                    playing: matches!(o.fate, EmitterFate::Active),
                };
                out.push(stepped);
            }
        }
        k = k + 1;
    }
    proof {
        assert(old_ems.subrange(0, n as int) =~= old_ems);
    }
    *emitters = out;
}

/// The first emitter with the given identity, if any.
pub open spec fn find_emitter_spec(ems: Seq<Emitter>, id: u64) -> Option<Emitter>
    decreases ems.len(),
{
    if ems.len() == 0 {
        None
    } else if ems[0].entity == id {
        Some(ems[0])
    } else {
        find_emitter_spec(ems.drop_first(), id)
    }
}

/// Finds the first emitter with the given identity.
fn find_emitter(ems: &Vec<Emitter>, id: u64) -> (r: Option<usize>)
    ensures
        match r {
            Some(i) => i < ems@.len() && ems@[i as int].entity == id && find_emitter_spec(
                ems@,
                id,
            ) == Some(ems@[i as int]),
            None => find_emitter_spec(ems@, id) is None,
        },
{
    let n = ems.len();
    let mut i: usize = 0;
    proof {
        assert(ems@.subrange(0, n as int) =~= ems@);
    }
    while i < n
        invariant
            i <= n,
            n == ems@.len(),
            find_emitter_spec(ems@, id) == find_emitter_spec(
                ems@.subrange(i as int, n as int),
                id,
            ),
        decreases n - i,
    {
        if ems[i].entity == id {
            return Some(i);
        }
        proof {
            assert(ems@.subrange(i as int, n as int).drop_first() =~= ems@.subrange(
                i as int + 1,
                n as int,
            ));
        }
        i = i + 1;
    }
    None
}

/// The time multiplier a particle ages by: its parent emitter's choice of
/// scaled or real time, real time when the parent is gone or no global
/// scale exists.
pub open spec fn particle_time_scale_spec(
    ems: Seq<Emitter>,
    parent: u64,
    ts: Option<TimeScale>,
) -> int {
    match ts {
        Some(t) => match find_emitter_spec(ems, parent) {
            Some(e) => if e.config.use_scaled_time {
                t.0 as int
            } else {
                FX_ONE as int
            },
            None => FX_ONE as int,
        },
        None => FX_ONE as int,
    }
}

/// A particle after one frame of aging: its lifetime advanced by the scaled
/// delta, everything else untouched.
pub open spec fn aged_particle_spec(
    p: ParticleEntity,
    ems: Seq<Emitter>,
    delta: int,
    ts: Option<TimeScale>,
) -> ParticleEntity {
    ParticleEntity {
        lifetime: Lifetime(
            fx_add_spec(
                p.lifetime.0 as int,
                fx_mul_spec(delta, particle_time_scale_spec(ems, p.particle.parent_system, ts)),
            ) as i64,
        ),
        ..p
    }
}

/// The aging pass: every live particle's lifetime advances by the frame's
/// delta, scaled by the parent emitter's time-scale choice.
pub fn particle_lifetime(
    particles: &mut Vec<ParticleEntity>,
    emitters: &Vec<Emitter>,
    delta: i64,
    time_scale: &Option<TimeScale>,
)
    ensures
        final(particles)@.len() == old(particles)@.len(),
        forall|j: int|
            0 <= j < old(particles)@.len() ==> final(particles)@[j] == aged_particle_spec(
                #[trigger] old(particles)@[j],
                emitters@,
                delta as int,
                *time_scale,
            ),
{
    let ghost old_parts = particles@;
    let n = particles.len();
    let mut i: usize = 0;
    while i < n
        invariant
            i <= n,
            n == old_parts.len(),
            particles@.len() == n,
            forall|j: int| i <= j < n ==> particles@[j] == old_parts[j],
            forall|j: int|
                0 <= j < i ==> particles@[j] == aged_particle_spec(
                    #[trigger] old_parts[j],
                    emitters@,
                    delta as int,
                    *time_scale,
                ),
        decreases n - i,
    {
        let p = particles[i];
        let scale: i64 = match time_scale {
            Some(t) => match find_emitter(emitters, p.particle.parent_system) {
                Some(idx) => if emitters[idx].config.use_scaled_time {
                    t.0
                } else {
                    FX_ONE
                },
                None => FX_ONE,
            },
            None => FX_ONE,
        };
        particles[i] = ParticleEntity {
            lifetime: Lifetime(fx_add(p.lifetime.0, fx_mul(delta, scale))),
            ..p
        };
        i = i + 1;
    }
}

/// A particle after the coloring pass: a constant color applied directly, a
/// gradient sampled at the particle's life percentage; untouched when the
/// parent emitter is gone.
pub open spec fn colored_particle_spec(p: ParticleEntity, ems: Seq<Emitter>) -> ParticleEntity {
    match find_emitter_spec(ems, p.particle.parent_system) {
        None => p,
        Some(e) => {
            let c = match e.config.color {
                ColorOverTime::Constant(col) => col,
                ColorOverTime::Gradient(g) => gradient_sample_spec(
                    g.points@,
                    fx_div_spec(p.lifetime.0 as int, p.particle.max_lifetime as int),
                ),
            };
            ParticleEntity { instance: Instance2D { color: c, ..p.instance }, ..p }
        },
    }
}

/// The coloring pass: every particle's color is set from its parent
/// emitter's color curve at the particle's life percentage.
pub fn particle_color(particles: &mut Vec<ParticleEntity>, emitters: &Vec<Emitter>)
    requires
        forall|i: int| 0 <= i < emitters@.len() ==> emitter_wf(#[trigger] emitters@[i]),
        forall|j: int|
            0 <= j < old(particles)@.len() ==> (#[trigger] old(particles)@[j]).particle
                .max_lifetime > 0,
    ensures
        final(particles)@.len() == old(particles)@.len(),
        forall|j: int|
            0 <= j < old(particles)@.len() ==> final(particles)@[j] == colored_particle_spec(
                #[trigger] old(particles)@[j],
                emitters@,
            ),
{
    let ghost old_parts = particles@;
    let n = particles.len();
    let mut i: usize = 0;
    while i < n
        invariant
            i <= n,
            n == old_parts.len(),
            particles@.len() == n,
            forall|k: int| 0 <= k < emitters@.len() ==> emitter_wf(#[trigger] emitters@[k]),
            forall|j: int| 0 <= j < n ==> (#[trigger] old_parts[j]).particle.max_lifetime > 0,
            forall|j: int| i <= j < n ==> particles@[j] == old_parts[j],
            forall|j: int|
                0 <= j < i ==> particles@[j] == colored_particle_spec(
                    #[trigger] old_parts[j],
                    emitters@,
                ),
        decreases n - i,
    {
        let p = particles[i];
        match find_emitter(emitters, p.particle.parent_system) {
            Some(idx) => {
                let c = match &emitters[idx].config.color {
                    ColorOverTime::Constant(col) => *col,
                    ColorOverTime::Gradient(g) => {
                        proof {
                            assert(particles@[i as int] == old_parts[i as int]);
                            assert(old_parts[i as int].particle.max_lifetime > 0);
                        }
                        let pct = fx_div(p.lifetime.0, p.particle.max_lifetime);
                        g.get_color(pct)
                    },
                };
                particles[i] = ParticleEntity {
                    instance: Instance2D { color: c, ..p.instance },
                    ..p
                };
            },
            None => {},
        }
        i = i + 1;
    }
}

/// A particle after the transform pass: its velocity integrated from the
/// acceleration curve, its position advanced along its direction by the
/// scaled step, its scale set from the scale curve, and the step's length
/// added to its traveled distance; untouched when the parent emitter is
/// gone.
pub open spec fn transformed_particle_spec(
    p: ParticleEntity,
    ems: Seq<Emitter>,
    delta: int,
    ts: Option<TimeScale>,
) -> ParticleEntity {
    match find_emitter_spec(ems, p.particle.parent_system) {
        None => p,
        Some(e) => {
            let scale_value = effective_time_scale_spec(e.config.use_scaled_time, ts);
            let pct = fx_div_spec(p.lifetime.0 as int, p.particle.max_lifetime as int);
            let vel = fx_add_spec(
                p.velocity.0 as int,
                fx_mul_spec(value_at_pct_spec(e.config.acceleration, pct), delta),
            );
            let step = fx_mul_spec(fx_mul_spec(vel, delta), scale_value);
            let newpos = Vec2Fx {
                x: fx_add_spec(
                    p.instance.position.x as int,
                    fx_mul_spec(p.direction.0.x as int, step),
                ) as i64,
                y: fx_add_spec(
                    p.instance.position.y as int,
                    fx_mul_spec(p.direction.0.y as int, step),
                ) as i64,
            };
            let news = value_at_pct_spec(e.config.scale, pct) as i64;
            ParticleEntity {
                instance: Instance2D {
                    position: newpos,
                    scale: Vec2Fx { x: news, y: news },
                    ..p.instance
                },
                velocity: Velocity(vel as i64),
                distance: DistanceTraveled(
                    fx_add_spec(
                        p.distance.0 as int,
                        vec2_dist_spec(newpos, p.instance.position),
                    ) as i64,
                ),
                ..p
            }
        },
    }
}

/// The transform pass: every particle accelerates, moves along its
/// direction, rescales, and accumulates the distance it traveled.
pub fn particle_transform(
    particles: &mut Vec<ParticleEntity>,
    emitters: &Vec<Emitter>,
    delta: i64,
    time_scale: &Option<TimeScale>,
)
    requires
        forall|i: int| 0 <= i < emitters@.len() ==> emitter_wf(#[trigger] emitters@[i]),
        forall|j: int|
            0 <= j < old(particles)@.len() ==> (#[trigger] old(particles)@[j]).particle
                .max_lifetime > 0,
    ensures
        final(particles)@.len() == old(particles)@.len(),
        forall|j: int|
            0 <= j < old(particles)@.len() ==> final(particles)@[j] == transformed_particle_spec(
                #[trigger] old(particles)@[j],
                emitters@,
                delta as int,
                *time_scale,
            ),
{
    let ghost old_parts = particles@;
    let n = particles.len();
    let mut i: usize = 0;
    while i < n
        invariant
            i <= n,
            n == old_parts.len(),
            particles@.len() == n,
            forall|k: int| 0 <= k < emitters@.len() ==> emitter_wf(#[trigger] emitters@[k]),
            forall|j: int| 0 <= j < n ==> (#[trigger] old_parts[j]).particle.max_lifetime > 0,
            forall|j: int| i <= j < n ==> particles@[j] == old_parts[j],
            forall|j: int|
                0 <= j < i ==> particles@[j] == transformed_particle_spec(
                    #[trigger] old_parts[j],
                    emitters@,
                    delta as int,
                    *time_scale,
                ),
        decreases n - i,
    {
        let p = particles[i];
        match find_emitter(emitters, p.particle.parent_system) {
            Some(idx) => {
                let scale_value = effective_time_scale(
                    emitters[idx].config.use_scaled_time,
                    time_scale,
                );
                proof {
                    assert(particles@[i as int] == old_parts[i as int]);
                    assert(old_parts[i as int].particle.max_lifetime > 0);
                }
                let pct = fx_div(p.lifetime.0, p.particle.max_lifetime);
                let accel = emitters[idx].config.acceleration.at_lifetime_pct(pct);
                let vel = fx_add(p.velocity.0, fx_mul(accel, delta));
                let step = fx_mul(fx_mul(vel, delta), scale_value);
                let newpos = Vec2Fx {
                    x: fx_add(p.instance.position.x, fx_mul(p.direction.0.x, step)),
                    y: fx_add(p.instance.position.y, fx_mul(p.direction.0.y, step)),
                };
                let news = emitters[idx].config.scale.at_lifetime_pct(pct);
                let travel = newpos.distance(&p.instance.position);
                particles[i] = ParticleEntity {
                    instance: Instance2D {
                        position: newpos,
                        scale: Vec2Fx { x: news, y: news },
                        ..p.instance
                    },
                    velocity: Velocity(vel),
                    distance: DistanceTraveled(fx_add(p.distance.0, travel)),
                    ..p
                };
            },
            None => {},
        }
        i = i + 1;
    }
}

/// Bounds of the spawn decision: the throttle grant never exceeds the
/// remaining capacity (so the cap holds without bursts), a full emitter
/// grants nothing, and a burst grant respects the configured burst bound.
pub proof fn lemma_tick_cap(
    sys: ParticleSystem,
    count: u64,
    rs: RunningState,
    bi: u64,
    delta: int,
    ts: Option<TimeScale>,
)
    requires
        particle_system_wf(sys),
        running_state_wf(rs),
        delta >= 0,
        time_scale_wf(ts),
    ensures
        spawn_tick_spec(sys, count, rs, bi, delta, ts).to_spawn <= sys.max_particles,
        spawn_tick_spec(sys, count, rs, bi, delta, ts).extra <= 1_000_000_000,
        count < sys.max_particles ==> count + spawn_tick_spec(sys, count, rs, bi, delta, ts)
            .to_spawn <= sys.max_particles,
        count >= sys.max_particles ==> spawn_tick_spec(sys, count, rs, bi, delta, ts).to_spawn
            == 0 && spawn_tick_spec(sys, count, rs, bi, delta, ts).extra == 0,
{
    let scale = effective_time_scale_spec(sys.use_scaled_time, ts);
    crate::fixed::lemma_fx_mul_nonneg(delta, scale);
    let rt1 = fx_add_spec(rs.running_time as int, fx_mul_spec(delta, scale));
    if rt1 >= sys.system_duration_seconds as int && sys.looping {
        let rt2 = fx_sub_spec(rt1, sys.system_duration_seconds as int);
        lemma_spawn_phase_cap(
            sys,
            count,
            RunningState {
                running_time: rt2 as i64,
                current_second: fx_floor_units_spec(rt2) as i64,
                spawned_this_second: 0,
            },
            0,
        );
    } else if rt1 < sys.system_duration_seconds as int {
        let sec1 = fx_floor_units_spec(rt1);
        let cs1 = if sec1 > rs.current_second as int {
            sec1
        } else {
            rs.current_second as int
        };
        let sps1 = if sec1 > rs.current_second as int {
            0
        } else {
            rs.spawned_this_second as int
        };
        lemma_spawn_phase_cap(
            sys,
            count,
            RunningState {
                running_time: rt1 as i64,
                current_second: cs1 as i64,
                spawned_this_second: sps1 as u64,
            },
            bi,
        );
    }
}

/// Bounds of the spawn-count decision after the clock has advanced.
proof fn lemma_spawn_phase_cap(sys: ParticleSystem, count: u64, rs: RunningState, bi: u64)
    requires
        particle_system_wf(sys),
        running_state_wf(rs),
    ensures
        spawn_phase_spec(sys, count, rs, bi).to_spawn <= sys.max_particles,
        spawn_phase_spec(sys, count, rs, bi).extra <= 1_000_000_000,
        count < sys.max_particles ==> count + spawn_phase_spec(sys, count, rs, bi).to_spawn
            <= sys.max_particles,
        count >= sys.max_particles ==> spawn_phase_spec(sys, count, rs, bi).to_spawn == 0
            && spawn_phase_spec(sys, count, rs, bi).extra == 0,
{
    if count < sys.max_particles {
        let pct = fx_div_spec(rs.running_time as int, sys.system_duration_seconds as int);
        let rate = value_at_pct_spec(sys.spawn_rate_per_second, pct);
        let frac = fx_frac_spec(rs.running_time as int);
        let raw = fx_mul_spec(frac, rate) - (rs.spawned_this_second as int) * (FX_ONE as int);
        if raw >= 0 {
            vstd::arithmetic::div_mod::lemma_div_pos_is_pos(raw, FX_ONE as int);
        }
        let fired = bi < sys.bursts@.len() && rs.running_time >= sys.bursts@[bi as int].time;
        if fired {
            assert(sys.bursts@[bi as int].count <= 1_000_000_000);
        }
    }
}

/// Particle count conservation over one frame: after the spawn pass an
/// emitter's count is exactly its previous count plus this frame's spawns;
/// the cleanup pass then takes away exactly the destroyed particles,
/// stopping at zero, so whenever destruction does not outrun the count the
/// balance is exact; and without a fired burst the count never exceeds the
/// configured cap. A burst firing near capacity is the one way past the
/// cap.
pub proof fn lemma_particle_count_conservation(
    e: Emitter,
    delta: int,
    ts: Option<TimeScale>,
    destroyed: int,
)
    requires
        emitter_wf(e),
        e.playing,
        delta >= 0,
        time_scale_wf(ts),
        destroyed >= 0,
    ensures
        stepped_emitter(e, delta, ts).particle_count.0 == e.particle_count.0 + tick_of(
            e,
            delta,
            ts,
        ).to_spawn + tick_of(e, delta, ts).extra,
        destroyed <= stepped_emitter(e, delta, ts).particle_count.0 ==> sat_sub_spec(
            stepped_emitter(e, delta, ts).particle_count.0 as int,
            destroyed,
        ) == stepped_emitter(e, delta, ts).particle_count.0 - destroyed,
        0 <= sat_sub_spec(stepped_emitter(e, delta, ts).particle_count.0 as int, destroyed),
        (e.particle_count.0 <= e.config.max_particles && tick_of(e, delta, ts).extra == 0)
            ==> stepped_emitter(e, delta, ts).particle_count.0 <= e.config.max_particles,
{
    lemma_tick_cap(e.config, e.particle_count.0, e.running_state, e.burst_index.0, delta, ts);
}

/// Whether a particle has reached the end of its life: its lifetime has
/// reached its resolved maximum, or its travel cap is set and reached.
pub open spec fn particle_expired(p: ParticleEntity) -> bool {
    ||| p.lifetime.0 >= p.particle.max_lifetime
    ||| match p.particle.max_distance {
        Some(d) => p.distance.0 >= d,
        None => false,
    }
}

/// The particles that survive a cleanup pass, in order.
pub open spec fn retained_particles_spec(ps: Seq<ParticleEntity>) -> Seq<ParticleEntity>
    decreases ps.len(),
{
    if ps.len() == 0 {
        Seq::empty()
    } else {
        let rest = retained_particles_spec(ps.drop_last());
        if particle_expired(ps.last()) {
            rest
        } else {
            rest.push(ps.last())
        }
    }
}

/// How many particles of one emitter a cleanup pass destroys.
pub open spec fn expired_count_spec(ps: Seq<ParticleEntity>, id: u64) -> int
    decreases ps.len(),
{
    if ps.len() == 0 {
        0
    } else {
        expired_count_spec(ps.drop_last(), id) + if particle_expired(ps.last()) && ps.last()
            .particle.parent_system == id {
            1int
        } else {
            0int
        }
    }
}

/// Subtraction that stops at zero.
pub open spec fn sat_sub_spec(a: int, b: int) -> int {
    if a >= b {
        a - b
    } else {
        0
    }
}

/// The cleanup pass destroys exactly the expired particles: what survives
/// is the input filtered by non-expiry, order preserved.
pub proof fn lemma_retained_is_filter(ps: Seq<ParticleEntity>)
    ensures
        retained_particles_spec(ps) == ps.filter(|p: ParticleEntity| !particle_expired(p)),
    decreases ps.len(),
{
    reveal(Seq::filter);
    if ps.len() > 0 {
        lemma_retained_is_filter(ps.drop_last());
    }
}

/// A cleanup pass destroys between zero and all of the particles.
pub proof fn lemma_expired_count_bounds(ps: Seq<ParticleEntity>, id: u64)
    ensures
        0 <= expired_count_spec(ps, id) <= ps.len(),
    decreases ps.len(),
{
    if ps.len() > 0 {
        lemma_expired_count_bounds(ps.drop_last(), id);
    }
}

/// If no emitter carries an identity, looking it up finds nothing.
proof fn lemma_find_none(ems: Seq<Emitter>, id: u64)
    requires
        find_emitter_spec(ems, id) is None,
    ensures
        forall|k: int| 0 <= k < ems.len() ==> (#[trigger] ems[k]).entity != id,
    decreases ems.len(),
{
    if ems.len() > 0 {
        lemma_find_none(ems.drop_first(), id);
        assert forall|k: int| 0 <= k < ems.len() implies (#[trigger] ems[k]).entity != id by {
            if k > 0 {
                assert(ems.drop_first()[k - 1] == ems[k]);
            }
        }
    }
}

/// The cleanup pass: destroys every particle whose lifetime or travel cap
/// is spent, and decrements the owning emitter's live count once per
/// destroyed particle, never below zero.
pub fn particle_cleanup(particles: &mut Vec<ParticleEntity>, emitters: &mut Vec<Emitter>)
    requires
        forall|i: int, j: int|
            0 <= i < j < old(emitters)@.len() ==> (#[trigger] old(emitters)@[i]).entity != (
            #[trigger] old(emitters)@[j]).entity,
    ensures
        final(particles)@ == retained_particles_spec(old(particles)@),
        final(emitters)@.len() == old(emitters)@.len(),
        forall|k: int|
            0 <= k < old(emitters)@.len() ==> final(emitters)@[k] == (Emitter {
                particle_count: ParticleCount(
                    sat_sub_spec(
                        (#[trigger] old(emitters)@[k]).particle_count.0 as int,
                        expired_count_spec(old(particles)@, old(emitters)@[k].entity),
                    ) as u64,
                ),
                ..old(emitters)@[k]
            }),
{
    let ghost old_parts = particles@;
    let ghost old_ems = emitters@;
    let n = particles.len();
    let mut kept: Vec<ParticleEntity> = Vec::new();
    let mut i: usize = 0;
    proof {
        assert(old_parts.subrange(0, 0) =~= Seq::<ParticleEntity>::empty());
    }
    while i < n
        invariant
            i <= n,
            n == old_parts.len(),
            particles@ == old_parts,
            kept@ == retained_particles_spec(old_parts.subrange(0, i as int)),
            emitters@.len() == old_ems.len(),
            forall|a: int, b: int|
                0 <= a < b < old_ems.len() ==> (#[trigger] old_ems[a]).entity != (
                #[trigger] old_ems[b]).entity,
            forall|k: int|
                0 <= k < old_ems.len() ==> emitters@[k] == (Emitter {
                    particle_count: ParticleCount(
                        sat_sub_spec(
                            (#[trigger] old_ems[k]).particle_count.0 as int,
                            expired_count_spec(
                                old_parts.subrange(0, i as int),
                                old_ems[k].entity,
                            ),
                        ) as u64,
                    ),
                    ..old_ems[k]
                }),
        decreases n - i,
    {
        let ghost prefix = old_parts.subrange(0, i as int);
        let ghost next = old_parts.subrange(0, i as int + 1);
        proof {
            assert(next.drop_last() =~= prefix);
            assert(next.last() == old_parts[i as int]);
        }
        let p = particles[i];
        let expired: bool = p.lifetime.0 >= p.particle.max_lifetime || (match p.particle
            .max_distance {
            Some(d) => p.distance.0 >= d,
            None => false,
        });
        if expired {
            let ghost ems_before = emitters@;
            match find_emitter(emitters, p.particle.parent_system) {
                Some(idx) => {
                    let e = emitters.remove(idx);
                    let c = e.particle_count.0;
                    let newc: u64 = if c > 0 {
                        c - 1
                    } else {
                        0
                    };
                    let stepped = Emitter {
                        entity: e.entity,
                        position: e.position,
                        config: e.config,
                        particle_count: ParticleCount(newc),
                        running_state: e.running_state,
                        burst_index: e.burst_index,
                        playing: e.playing,
                    };
                    emitters.insert(idx, stepped);
                    proof {
                        assert(emitters@ =~= ems_before.update(idx as int, stepped));
                        let id = p.particle.parent_system;
                        assert(particle_expired(old_parts[i as int]));
                        assert(old_ems[idx as int].entity == id);
                        assert forall|k: int| 0 <= k < old_ems.len() implies emitters@[k] == (
                        Emitter {
                            particle_count: ParticleCount(
                                sat_sub_spec(
                                    (#[trigger] old_ems[k]).particle_count.0 as int,
                                    expired_count_spec(next, old_ems[k].entity),
                                ) as u64,
                            ),
                            ..old_ems[k]
                        }) by {
                            lemma_expired_count_bounds(prefix, old_ems[k].entity);
                            lemma_expired_count_bounds(next, old_ems[k].entity);
                            if k == idx {
                                assert(expired_count_spec(next, old_ems[k].entity)
                                    == expired_count_spec(prefix, old_ems[k].entity) + 1);
                                assert(emitters@[k] == stepped);
                            } else {
                                if k < idx {
                                    assert(old_ems[k].entity != old_ems[idx as int].entity);
                                } else {
                                    assert(old_ems[idx as int].entity != old_ems[k].entity);
                                }
                                assert(expired_count_spec(next, old_ems[k].entity)
                                    == expired_count_spec(prefix, old_ems[k].entity));
                                assert(emitters@[k] == ems_before[k]);
                            }
                        }
                    }
                },
                None => {
                    proof {
                        lemma_find_none(emitters@, p.particle.parent_system);
                        assert forall|k: int| 0 <= k < old_ems.len() implies expired_count_spec(
                            next,
                            (#[trigger] old_ems[k]).entity,
                        ) == expired_count_spec(prefix, old_ems[k].entity) by {
                            assert(emitters@[k].entity == old_ems[k].entity);
                            assert(emitters@[k].entity != p.particle.parent_system);
                        }
                    }
                },
            }
        } else {
            kept.push(p);
            proof {
                assert(!particle_expired(old_parts[i as int]));
                assert forall|k: int| 0 <= k < old_ems.len() implies expired_count_spec(
                    next,
                    (#[trigger] old_ems[k]).entity,
                ) == expired_count_spec(prefix, old_ems[k].entity) by {}
            }
        }
        i = i + 1;
    }
    proof {
        assert(old_parts.subrange(0, n as int) =~= old_parts);
    }
    *particles = kept;
}

} // verus!

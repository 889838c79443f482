use prim_core::fixed::FX_ONE;
use prim_core::instance::Instance2D;
use prim_core::particle_system::components::{
    BurstIndex, Direction, DistanceTraveled, Emitter, EmitterPosition, Lifetime, Particle,
    ParticleBurst, ParticleCount, ParticleEntity, ParticleSystem, RunningState, TimeScale,
    Velocity,
};
use prim_core::particle_system::systems::{
    particle_cleanup, particle_color, particle_lifetime, particle_spawner, particle_transform,
};
use prim_core::particle_system::values::{
    ColorOverTime, ColorPoint, Gradient, JitteredValue, ValueOverTime,
};
use prim_core::vecs::{Vec2Fx, Vec4Fx};

fn base_config() -> ParticleSystem {
    ParticleSystem {
        shape_id: 1,
        max_particles: 1_000,
        spawn_rate_per_second: ValueOverTime::Constant(0),
        initial_velocity: JitteredValue::constant(0),
        acceleration: ValueOverTime::Constant(0),
        lifetime: JitteredValue::constant(10_000),
        spawn_radius: JitteredValue::constant(0),
        emitter_shape: 0,
        emitter_angle: 0,
        color: ColorOverTime::Constant(Vec4Fx::one()),
        scale: ValueOverTime::Constant(FX_ONE),
        looping: false,
        system_duration_seconds: 10_000,
        max_distance: None,
        bursts: Vec::new(),
        use_scaled_time: false,
        despawn_on_finish: false,
    }
}

fn emitter_from(config: ParticleSystem, id: u64) -> Emitter {
    Emitter {
        entity: id,
        position: EmitterPosition(Vec2Fx::zero()),
        config,
        particle_count: ParticleCount(0),
        running_state: RunningState {
            running_time: 0,
            current_second: 0,
            spawned_this_second: 0,
        },
        burst_index: BurstIndex(0),
        playing: true,
    }
}

fn one_frame(
    emitters: &mut Vec<Emitter>,
    particles: &mut Vec<ParticleEntity>,
    delta: i64,
    time_scale: &Option<TimeScale>,
) {
    particle_spawner(emitters, particles, delta, time_scale);
    particle_lifetime(particles, emitters, delta, time_scale);
    particle_color(particles, emitters);
    particle_transform(particles, emitters, delta, time_scale);
    particle_cleanup(particles, emitters);
}

#[test]
fn test_gradient_interpolation() {
    let white = Vec4Fx::one();
    let red = Vec4Fx::new(FX_ONE, 0, 0, FX_ONE);
    let blue_transparent = Vec4Fx::new(0, 0, FX_ONE, 0);
    let gradient = Gradient::new(vec![
        ColorPoint::new(white, 0),
        ColorPoint::new(red, 500),
        ColorPoint::new(blue_transparent, 1_000),
    ]);
    // Midpoint between the white and red stops.
    assert_eq!(gradient.get_color(250), Vec4Fx::new(1_000, 500, 500, 1_000));
    // Out-of-range queries clamp to the boundary stops.
    assert_eq!(gradient.get_color(1_500), blue_transparent);
    assert_eq!(gradient.get_color(-10), white);
    assert_eq!(gradient.get_color(0), white);
    assert_eq!(gradient.get_color(750), Vec4Fx::new(500, 0, 500, 500));
}

#[test]
fn test_jittered_value_stays_in_range() {
    assert_eq!(JitteredValue::constant(5_000).get_value(), 5_000);
    let jittered = JitteredValue::jittered(25_000, -10_000, 10_000);
    for _ in 0..100 {
        let v = jittered.get_value();
        assert!((15_000..35_000).contains(&v));
    }
}

#[test]
fn test_value_curve_constant_and_sine() {
    let constant = ValueOverTime::Constant(42);
    assert_eq!(constant.at_lifetime_pct(0), 42);
    assert_eq!(constant.at_lifetime_pct(777), 42);
    let wave = ValueOverTime::Sin(prim_core::particle_system::values::SinWave {
        amplitude: 150_000,
        period: FX_ONE,
        phase_shift: 0,
        vertical_shift: 0,
    });
    // The wave starts at its vertical shift and stays within the amplitude.
    assert_eq!(wave.at_lifetime_pct(0), 0);
    let quarter = wave.at_lifetime_pct(250);
    assert!(quarter > 0 && quarter <= 150_000);
}

#[test]
fn test_burst_exactness() {
    let mut config = base_config();
    config.max_particles = 2_000;
    config.bursts = vec![ParticleBurst::new(0, 1_000), ParticleBurst::new(2_000, 1_000)];
    let mut emitters = vec![emitter_from(config, 9)];
    let mut particles: Vec<ParticleEntity> = Vec::new();

    // First frame: running time reaches 0.1s, the burst at 0.0 fires.
    particle_spawner(&mut emitters, &mut particles, 100, &None);
    assert_eq!(particles.len(), 1_000);
    assert_eq!(emitters[0].particle_count.0, 1_000);
    assert_eq!(emitters[0].burst_index.0, 1);

    // Second frame: running time reaches 2.0s, the burst at 2.0 fires.
    particle_spawner(&mut emitters, &mut particles, 1_900, &None);
    assert_eq!(particles.len(), 2_000);
    assert_eq!(emitters[0].particle_count.0, 2_000);
    assert_eq!(emitters[0].burst_index.0, 2);

    // No more bursts, rate zero, at capacity: nothing further spawns.
    particle_spawner(&mut emitters, &mut particles, 100, &None);
    assert_eq!(particles.len(), 2_000);
    assert_eq!(emitters[0].particle_count.0, 2_000);
}

#[test]
fn test_looping_rewinds_clock_and_bursts() {
    let mut config = base_config();
    config.looping = true;
    config.system_duration_seconds = 1_000;
    config.bursts = vec![ParticleBurst::new(0, 5)];
    let mut emitters = vec![emitter_from(config, 8)];
    let mut particles: Vec<ParticleEntity> = Vec::new();

    // First frame fires the burst of the first cycle.
    particle_spawner(&mut emitters, &mut particles, 600, &None);
    assert_eq!(emitters[0].particle_count.0, 5);
    assert_eq!(emitters[0].burst_index.0, 1);

    // Crossing the 1.0s duration wraps the clock and rewinds the burst
    // list, so the same burst fires again in the second cycle.
    particle_spawner(&mut emitters, &mut particles, 600, &None);
    assert_eq!(emitters[0].running_state.running_time, 200);
    assert_eq!(emitters[0].particle_count.0, 10);
    assert_eq!(emitters[0].burst_index.0, 1);
}

#[test]
fn test_per_second_throttle() {
    // At 3 particles per second and 100 frames of 0.01s, the throttle
    // grants one particle up front (the guard against starvation), one when
    // the fractional budget reaches a whole particle, and one as the new
    // second begins.
    let mut config = base_config();
    config.spawn_rate_per_second = ValueOverTime::Constant(3_000);
    let mut emitters = vec![emitter_from(config, 4)];
    let mut particles: Vec<ParticleEntity> = Vec::new();
    for _ in 0..100 {
        particle_spawner(&mut emitters, &mut particles, 10, &None);
    }
    assert_eq!(emitters[0].running_state.running_time, 1_000);
    assert_eq!(emitters[0].particle_count.0, 3);
    assert_eq!(particles.len(), 3);
}

#[test]
fn test_spawned_particle_attributes() {
    let mut config = base_config();
    config.initial_velocity = JitteredValue::constant(25_000);
    config.bursts = vec![ParticleBurst::new(0, 4)];
    config.color = ColorOverTime::Gradient(Gradient::new(vec![
        ColorPoint::new(Vec4Fx::one(), 0),
        ColorPoint::new(Vec4Fx::zero(), 1_000),
    ]));
    config.scale = ValueOverTime::Constant(7_000);
    let mut emitters = vec![emitter_from(config, 3)];
    emitters[0].position = EmitterPosition(Vec2Fx::new(5_000, -2_000));
    let mut particles: Vec<ParticleEntity> = Vec::new();
    particle_spawner(&mut emitters, &mut particles, 10, &None);
    assert_eq!(particles.len(), 4);
    for p in &particles {
        assert_eq!(p.particle.parent_system, 3);
        assert_eq!(p.particle.max_lifetime, 10_000);
        assert_eq!(p.particle.max_distance, None);
        assert_eq!(p.lifetime.0, 0);
        assert_eq!(p.distance.0, 0);
        assert_eq!(p.velocity.0, 25_000);
        // Zero cone width and angle: the direction is the positive x axis,
        // and with zero spawn radius the particle starts on the emitter.
        assert_eq!(p.direction.0, Vec2Fx::new(FX_ONE, 0));
        assert_eq!(p.instance.position, Vec2Fx::new(5_000, -2_000));
        assert_eq!(p.instance.scale, Vec2Fx::splat(7_000));
        // Color sampled from the gradient at life percentage zero.
        assert_eq!(p.instance.color, Vec4Fx::one());
        assert_eq!(p.instance.shape, 1);
    }
}

#[test]
fn test_lifetime_driven_destruction() {
    let particle = ParticleEntity {
        instance: Instance2D::new(),
        particle: Particle { parent_system: 1, max_lifetime: 1_000, max_distance: None },
        lifetime: Lifetime(980),
        velocity: Velocity(0),
        direction: Direction(Vec2Fx::new(FX_ONE, 0)),
        distance: DistanceTraveled(0),
    };
    let mut emitters = vec![emitter_from(base_config(), 1)];
    emitters[0].particle_count = ParticleCount(1);
    let mut particles = vec![particle];

    // One 0.01s step: lifetime 0.99 < 1.0, the particle survives.
    particle_lifetime(&mut particles, &emitters, 10, &None);
    particle_cleanup(&mut particles, &mut emitters);
    assert_eq!(particles.len(), 1);
    assert_eq!(emitters[0].particle_count.0, 1);
    assert_eq!(particles[0].lifetime.0, 990);

    // The step that reaches 1.0 destroys it and decrements the count.
    particle_lifetime(&mut particles, &emitters, 10, &None);
    particle_cleanup(&mut particles, &mut emitters);
    assert!(particles.is_empty());
    assert_eq!(emitters[0].particle_count.0, 0);
}

#[test]
fn test_distance_driven_destruction() {
    let particle = ParticleEntity {
        instance: Instance2D::new(),
        particle: Particle { parent_system: 1, max_lifetime: 1_000_000, max_distance: Some(500) },
        lifetime: Lifetime(0),
        velocity: Velocity(30_000),
        direction: Direction(Vec2Fx::new(FX_ONE, 0)),
        distance: DistanceTraveled(0),
    };
    let mut emitters = vec![emitter_from(base_config(), 1)];
    emitters[0].particle_count = ParticleCount(1);
    let mut particles = vec![particle];

    // Traveling 0.3 units per 0.01s frame reaches the 0.5 unit cap on the
    // second transform.
    particle_transform(&mut particles, &emitters, 10, &None);
    assert_eq!(particles[0].distance.0, 300);
    particle_cleanup(&mut particles, &mut emitters);
    assert_eq!(particles.len(), 1);
    particle_transform(&mut particles, &emitters, 10, &None);
    particle_cleanup(&mut particles, &mut emitters);
    assert!(particles.is_empty());
    assert_eq!(emitters[0].particle_count.0, 0);
}

#[test]
fn test_particle_count_conservation_across_frames() {
    let mut config = base_config();
    config.spawn_rate_per_second = ValueOverTime::Constant(200_000);
    config.max_particles = 50;
    config.lifetime = JitteredValue::constant(50);
    let mut emitters = vec![emitter_from(config, 11)];
    let mut particles: Vec<ParticleEntity> = Vec::new();
    for _ in 0..200 {
        one_frame(&mut emitters, &mut particles, 10, &None);
        assert_eq!(emitters[0].particle_count.0 as usize, particles.len());
        assert!(emitters[0].particle_count.0 <= 50);
    }
}

#[test]
fn test_end_to_end_despawn_on_finish() {
    let mut config = base_config();
    config.max_particles = 10;
    config.spawn_rate_per_second = ValueOverTime::Constant(5_000);
    config.system_duration_seconds = 2_000;
    config.looping = false;
    config.despawn_on_finish = true;
    config.lifetime = JitteredValue::constant(100);
    let mut emitters = vec![emitter_from(config, 5)];
    let mut particles: Vec<ParticleEntity> = Vec::new();

    // Simulate 4 seconds in 0.01s frames: past the 2.0s duration and the
    // 0.1s tail of the last spawned particle.
    for _ in 0..400 {
        one_frame(&mut emitters, &mut particles, 10, &None);
    }
    assert!(emitters.is_empty());
    assert!(particles.is_empty());
}

#[test]
fn test_pause_on_finish_keeps_emitter() {
    let mut config = base_config();
    config.max_particles = 10;
    config.spawn_rate_per_second = ValueOverTime::Constant(5_000);
    config.system_duration_seconds = 2_000;
    config.despawn_on_finish = false;
    config.lifetime = JitteredValue::constant(100);
    let mut emitters = vec![emitter_from(config, 6)];
    let mut particles: Vec<ParticleEntity> = Vec::new();
    for _ in 0..400 {
        one_frame(&mut emitters, &mut particles, 10, &None);
    }
    assert_eq!(emitters.len(), 1);
    assert!(!emitters[0].playing);
    assert!(particles.is_empty());
    assert_eq!(emitters[0].particle_count.0, 0);
}

#[test]
fn test_scaled_time_doubles_aging() {
    let mut config = base_config();
    config.use_scaled_time = true;
    let mut emitters = vec![emitter_from(config, 2)];
    emitters[0].particle_count = ParticleCount(1);
    let mut particles = vec![ParticleEntity {
        instance: Instance2D::new(),
        particle: Particle { parent_system: 2, max_lifetime: 10_000, max_distance: None },
        lifetime: Lifetime(0),
        velocity: Velocity(0),
        direction: Direction(Vec2Fx::new(FX_ONE, 0)),
        distance: DistanceTraveled(0),
    }];
    let double_speed = Some(TimeScale(2_000));
    particle_lifetime(&mut particles, &emitters, 10, &double_speed);
    assert_eq!(particles[0].lifetime.0, 20);
    // An emitter that ignores scaled time ages its particles in real time.
    emitters[0].config.use_scaled_time = false;
    particle_lifetime(&mut particles, &emitters, 10, &double_speed);
    assert_eq!(particles[0].lifetime.0, 30);
}

use particles::{vec2, Particle, ParticleSystem, DEFAULT_DECAY_RATE, DEFAULT_RADIUS, DELTA_LIMIT};

fn quiet_system() -> ParticleSystem {
    // A system that will not emit for a long while, so physics can be
    // observed on hand-built particles alone.
    let mut sys = ParticleSystem::new();
    sys.randomize = false;
    sys.interval_timer = 1_000_000;
    sys
}

#[test]
fn system_defaults() {
    let sys = ParticleSystem::new();
    assert_eq!(sys.position, vec2(0, 0));
    assert_eq!(sys.gravity, vec2(0, 100_000));
    assert_eq!(sys.emit_interval, 1);
    assert_eq!(sys.initial_velocity, vec2(0, 0));
    assert!(sys.randomize);
    assert_eq!(sys.rand_amount, 50_000);
    assert_eq!(sys.particles.len(), 0);
    assert_eq!(sys.interval_timer, 1);
}

#[test]
fn particle_defaults() {
    let p = Particle::new();
    assert_eq!(p.position, vec2(0, 0));
    assert_eq!(p.velocity, vec2(0, 0));
    assert_eq!(p.radius, DEFAULT_RADIUS);
    assert_eq!(p.decay_rate, DEFAULT_DECAY_RATE);
}

#[test]
fn builder_chaining() {
    let sys = ParticleSystem::new()
        .position(vec2(300_000, 300_000))
        .emit_interval(10)
        .initial_velocity(vec2(0, -200_000))
        .particles(vec![Particle::new()]);
    assert_eq!(sys.position, vec2(300_000, 300_000));
    assert_eq!(sys.emit_interval, 10);
    assert_eq!(sys.initial_velocity, vec2(0, -200_000));
    assert_eq!(sys.particles.len(), 1);

    let p = Particle::new()
        .position(vec2(1, 2))
        .velocity(vec2(3, 4))
        .radius(5)
        .decay_rate(6);
    assert_eq!(p.position, vec2(1, 2));
    assert_eq!(p.velocity, vec2(3, 4));
    assert_eq!(p.radius, 5);
    assert_eq!(p.decay_rate, 6);
}

#[test]
fn emission_cadence() {
    // Interval 10, fixed step 3: one emission every 10 / 3 + 1 = 4 ticks,
    // starting from a countdown equal to the full interval.
    let mut sys = ParticleSystem::new().emit_interval(10);
    sys.randomize = false;
    sys.interval_timer = 10;
    let mut expected: usize = 0;
    for k in 1..=12 {
        sys.tick(3);
        if k % 4 == 0 {
            expected += 1;
        }
        assert_eq!(sys.particles.len(), expected, "after tick {k}");
    }
}

#[test]
fn no_burst_emission() {
    // A single tick spanning ten intervals still adds exactly one particle.
    let mut sys = ParticleSystem::new().emit_interval(10);
    sys.randomize = false;
    sys.interval_timer = 10;
    sys.tick(100);
    assert_eq!(sys.particles.len(), 1);
    assert_eq!(sys.interval_timer, 10);
}

#[test]
fn radius_decays_linearly() {
    let p = Particle::new().radius(8000).decay_rate(2000);
    let mut sys = quiet_system().particles(vec![p]);
    for n in 1..=3 {
        sys.tick(100);
        assert_eq!(sys.particles.len(), 1);
        assert_eq!(sys.particles[0].radius, 8000 - n * 200);
    }
}

#[test]
fn decayed_particle_is_removed_and_never_drawn() {
    // radius 0.1, decay rate 1 per second, one tick of one second.
    let p = Particle::new().radius(100).decay_rate(1000);
    let mut sys = quiet_system().particles(vec![p]);
    sys.interval_timer = 2000;
    assert_eq!(sys.particles.len(), 1);
    sys.tick(1000);
    assert_eq!(sys.particles.len(), 0);
    assert_eq!(sys.draw().len(), 0);
}

#[test]
fn gravity_integrates_velocity_then_position() {
    // At rest under gravity (0, 100), one tick of 0.1 s: velocity.y becomes
    // 100 * 5 * 0.1 = 50 and position.y becomes 50 * 0.1 = 5.
    let p = Particle::new();
    let mut sys = quiet_system().particles(vec![p]);
    sys.tick(100);
    assert_eq!(sys.particles[0].velocity, vec2(0, 50_000));
    assert_eq!(sys.particles[0].position, vec2(0, 5_000));
}

#[test]
fn fixed_point_products_round_toward_zero() {
    let p = Particle::new();
    let mut sys = quiet_system().particles(vec![p]);
    sys.gravity = vec2(0, 999);
    // 999 * 5 * 0.001 = 4.995 truncates to 4 thousandths; the position gain
    // 4 * 0.001 = 0.004 thousandths truncates to zero.
    sys.tick(1);
    assert_eq!(sys.particles[0].velocity, vec2(0, 4));
    assert_eq!(sys.particles[0].position, vec2(0, 0));
}

#[test]
fn zero_delta_changes_nothing() {
    let mut sys = ParticleSystem::new().emit_interval(5);
    for _ in 0..8 {
        sys.tick(2);
    }
    let particles_before = sys.particles.clone();
    let timer_before = sys.interval_timer;
    for _ in 0..5 {
        sys.tick(0);
        assert_eq!(sys.particles, particles_before);
        assert_eq!(sys.interval_timer, timer_before);
    }
}

#[test]
fn draw_is_pure_and_covers_every_particle() {
    let mut sys = ParticleSystem::new().emit_interval(2);
    for _ in 0..6 {
        sys.tick(1);
    }
    let particles_before = sys.particles.clone();
    let first = sys.draw();
    let second = sys.draw();
    assert_eq!(first, second);
    assert_eq!(sys.particles, particles_before);
    assert_eq!(first.len(), sys.particles.len());
    for (c, p) in first.iter().zip(sys.particles.iter()) {
        assert_eq!(c.x, p.position.x);
        assert_eq!(c.y, p.position.y);
        assert_eq!(c.radius, p.radius);
    }
}

#[test]
fn deterministic_paths_without_randomization() {
    let build = || {
        let mut sys = ParticleSystem::new()
            .position(vec2(100_000, 200_000))
            .emit_interval(4)
            .initial_velocity(vec2(7_000, -200_000));
        sys.randomize = false;
        sys
    };
    let mut a = build();
    let mut b = build();
    for _ in 0..20 {
        a.tick(3);
        b.tick(3);
        assert_eq!(a.particles, b.particles);
        assert_eq!(a.interval_timer, b.interval_timer);
    }
}

#[test]
fn jitter_stays_within_the_configured_amount() {
    // With randomization on, a particle spawned at rest configuration gets
    // x-jitter in [-50, 50] and y-jitter in [-100, 100] units/s; one tick of
    // 0.002 s also adds 1 unit/s of gravity to the y velocity.
    for _ in 0..50 {
        let mut sys = ParticleSystem::new();
        sys.tick(2);
        assert_eq!(sys.particles.len(), 1);
        let v = sys.particles[0].velocity;
        assert!(-50_000 <= v.x && v.x <= 50_000, "x velocity {} out of range", v.x);
        assert!(-99_000 <= v.y && v.y <= 101_000, "y velocity {} out of range", v.y);
    }
}

#[test]
fn emission_spawns_at_the_emission_point() {
    let mut sys = ParticleSystem::new()
        .position(vec2(100_000, 200_000))
        .initial_velocity(vec2(4_000, -7_000));
    sys.randomize = false;
    sys.gravity = vec2(0, 0);
    sys.tick(2);
    assert_eq!(sys.particles.len(), 1);
    let p = sys.particles[0];
    assert_eq!(p.velocity, vec2(4_000, -7_000));
    // One physics step of 0.002 s moves the spawn point by velocity * delta.
    assert_eq!(p.position, vec2(100_008, 199_986));
    assert_eq!(p.radius, DEFAULT_RADIUS - 16);
}

#[test]
fn tick_checked_rejects_out_of_range_input() {
    let mut sys = ParticleSystem::new();
    assert!(!sys.tick_checked(-1));
    assert_eq!(sys.particles.len(), 0);
    assert_eq!(sys.interval_timer, 1);
    assert!(!sys.tick_checked(DELTA_LIMIT + 1));
    assert_eq!(sys.interval_timer, 1);
    assert!(sys.tick_checked(2));
    assert_eq!(sys.particles.len(), 1);
}

#[test]
fn tick_checked_rejects_out_of_range_particles() {
    let p = Particle::new().position(vec2(i64::MAX, 0));
    let mut sys = quiet_system().particles(vec![p]);
    assert!(!sys.tick_checked(1));
    assert_eq!(sys.particles.len(), 1);
    assert_eq!(sys.particles[0].position, vec2(i64::MAX, 0));
}

use vstd::prelude::*;
use vstd::arithmetic::div_mod::lemma_div_pos_is_pos;
use crate::fixed::{Vec2, Vec2Model, mul_fp, mul_fp_spec, lemma_mul_fp_bound, COORD_LIMIT,
    DELTA_LIMIT, PART_LIMIT, SCALE};

verus! {

/// Radius a freshly spawned particle starts with: 8 units.
pub const DEFAULT_RADIUS: i64 = 8000;

/// Radius lost per second by a freshly spawned particle: 8 units per second.
pub const DEFAULT_DECAY_RATE: i64 = 8000;

/// A short-lived circular particle. Its whole lifecycle is driven by the
/// owning system: velocity accumulates gravity, position integrates
/// velocity, and the radius decays until the particle is removed.
#[derive(Clone, Copy, PartialEq, Eq, Structural, Debug)]
pub struct Particle {
    pub position: Vec2,
    pub velocity: Vec2,
    pub radius: i64,
    pub decay_rate: i64,
}

/// Mathematical counterpart of `Particle`, over unbounded integers.
pub ghost struct ParticleModel {
    pub position: Vec2Model,
    pub velocity: Vec2Model,
    pub radius: int,
    pub decay_rate: int,
}

impl View for Particle {
    type V = ParticleModel;

    open spec fn view(&self) -> ParticleModel {
        ParticleModel {
            position: self.position@,
            velocity: self.velocity@,
            radius: self.radius as int,
            decay_rate: self.decay_rate as int,
        }
    }
}

/// One physics step of a single particle over elapsed time `d`:
/// the velocity first accumulates gravity (`gx5`, `gy5` are the gravity
/// vector already scaled by the fixed 5x multiplier), then the position
/// integrates the updated velocity, and the radius loses `decay_rate * d`.
pub open spec fn step_model(p: ParticleModel, gx5: int, gy5: int, d: int) -> ParticleModel {
    let vx = p.velocity.x + mul_fp_spec(gx5, d);
    let vy = p.velocity.y + mul_fp_spec(gy5, d);
    ParticleModel {
        position: Vec2Model {
            x: p.position.x + mul_fp_spec(vx, d),
            y: p.position.y + mul_fp_spec(vy, d),
        },
        velocity: Vec2Model { x: vx, y: vy },
        radius: p.radius - mul_fp_spec(p.decay_rate, d),
        decay_rate: p.decay_rate,
    }
}

/// The particle `p` stepped `n` times with the same gravity and time step.
pub open spec fn iter_step(p: ParticleModel, gx5: int, gy5: int, d: int, n: nat) -> ParticleModel
    decreases n,
{
    if n == 0 {
        p
    } else {
        step_model(iter_step(p, gx5, gy5, d, (n - 1) as nat), gx5, gy5, d)
    }
}

/// All fields of the particle fit under the given tick limit.
pub open spec fn particle_in_bounds(p: ParticleModel) -> bool {
    &&& -PART_LIMIT <= p.position.x <= PART_LIMIT
    &&& -PART_LIMIT <= p.position.y <= PART_LIMIT
    &&& -PART_LIMIT <= p.velocity.x <= PART_LIMIT
    &&& -PART_LIMIT <= p.velocity.y <= PART_LIMIT
    &&& -PART_LIMIT <= p.radius <= PART_LIMIT
    &&& -PART_LIMIT <= p.decay_rate <= PART_LIMIT
}

/// Radius decay law: with a nonnegative decay rate and time step, the
/// radius after `n` steps is exactly the initial radius minus `n` times
/// the per-step decay, the decay rate never changes, and the radius never
/// grows along the way.
pub proof fn lemma_radius_decay(p: ParticleModel, gx5: int, gy5: int, d: int, n: nat)
    requires
        0 <= d,
        0 <= p.decay_rate,
    ensures
        iter_step(p, gx5, gy5, d, n).radius == p.radius - n * mul_fp_spec(p.decay_rate, d),
        iter_step(p, gx5, gy5, d, n).decay_rate == p.decay_rate,
        iter_step(p, gx5, gy5, d, n).radius <= p.radius,
    decreases n,
{
    let dec = mul_fp_spec(p.decay_rate, d);
    assert(0 <= p.decay_rate * d) by (nonlinear_arith)
        requires
            0 <= d,
            0 <= p.decay_rate,
    ;
    lemma_div_pos_is_pos(p.decay_rate * d, SCALE as int);
    if n == 0 {
        assert(0 * dec == 0) by (nonlinear_arith);
    } else {
        lemma_radius_decay(p, gx5, gy5, d, (n - 1) as nat);
        assert((n as int) * dec == ((n - 1) as int) * dec + dec) by (nonlinear_arith);
    }
}

/// Executable physics step; returns the stepped particle and matches the
/// mathematical step exactly.
pub fn step_one(p: &Particle, gx5: i64, gy5: i64, delta: i64) -> (q: Particle)
    requires
        0 <= delta <= DELTA_LIMIT,
        -5 * (COORD_LIMIT as int) <= gx5 as int <= 5 * (COORD_LIMIT as int),
        -5 * (COORD_LIMIT as int) <= gy5 as int <= 5 * (COORD_LIMIT as int),
        particle_in_bounds(p@),
    ensures
        q@ == step_model(p@, gx5 as int, gy5 as int, delta as int),
{
    proof {
        lemma_mul_fp_bound(gx5 as int, delta as int, 5 * (COORD_LIMIT as int),
            DELTA_LIMIT as int, 5_000_000_000_000_000);
        lemma_mul_fp_bound(gy5 as int, delta as int, 5 * (COORD_LIMIT as int),
            DELTA_LIMIT as int, 5_000_000_000_000_000);
    }
    let dvx = mul_fp(gx5, delta);
    let dvy = mul_fp(gy5, delta);
    let vx = p.velocity.x + dvx;
    let vy = p.velocity.y + dvy;
    proof {
        lemma_mul_fp_bound(vx as int, delta as int, 5_003_000_000_000_000,
            DELTA_LIMIT as int, 5_003_000_000_000_000_000);
        lemma_mul_fp_bound(vy as int, delta as int, 5_003_000_000_000_000,
            DELTA_LIMIT as int, 5_003_000_000_000_000_000);
        lemma_mul_fp_bound(p.decay_rate as int, delta as int, PART_LIMIT as int,
            DELTA_LIMIT as int, 3_000_000_000_000_000);
    }
    let px = p.position.x + mul_fp(vx, delta);
    let py = p.position.y + mul_fp(vy, delta);
    let r = p.radius - mul_fp(p.decay_rate, delta);
    Particle {
        position: Vec2 { x: px, y: py },
        velocity: Vec2 { x: vx, y: vy },
        radius: r,
        decay_rate: p.decay_rate,
    }
}

impl Particle {
    /// A particle with the default fields: at the origin, at rest, with the
    /// default radius and decay rate.
    pub fn new() -> (p: Particle)
        ensures
            p == (Particle {
                position: (Vec2 { x: 0, y: 0 }),
                velocity: (Vec2 { x: 0, y: 0 }),
                radius: DEFAULT_RADIUS,
                decay_rate: DEFAULT_DECAY_RATE,
            }),
    {
        Particle {
            position: Vec2 { x: 0, y: 0 },
            velocity: Vec2 { x: 0, y: 0 },
            radius: DEFAULT_RADIUS,
            decay_rate: DEFAULT_DECAY_RATE,
        }
    }

    /// Sets `position` to `value`.
    pub fn position(self, value: Vec2) -> (r: Particle)
        ensures
            r == (Particle { position: value, ..self }),
    {
        Particle { position: value, ..self }
    }

    /// Sets `velocity` to `value`.
    pub fn velocity(self, value: Vec2) -> (r: Particle)
        ensures
            r == (Particle { velocity: value, ..self }),
    {
        Particle { velocity: value, ..self }
    }

    /// Sets `radius` to `value`.
    pub fn radius(self, value: i64) -> (r: Particle)
        ensures
            r == (Particle { radius: value, ..self }),
    {
        Particle { radius: value, ..self }
    }

    /// Sets `decay_rate` to `value`.
    pub fn decay_rate(self, value: i64) -> (r: Particle)
        ensures
            r == (Particle { decay_rate: value, ..self }),
    {
        Particle { decay_rate: value, ..self }
    }
}

} // verus!

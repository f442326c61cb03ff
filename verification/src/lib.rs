//! A minimal particle emitter: a moving emission point spawns short-lived
//! circular particles that fall under gravity, shrink, and disappear.
//!
//! Every scalar is a fixed-point `i64` counting thousandths of a unit;
//! the mathematical model of each type speaks in unbounded integers.

pub mod fixed;
pub mod particle;
pub mod rng;
pub mod system;

pub use fixed::{Vec2, Vec2Model, vec2, SCALE, COORD_LIMIT, DELTA_LIMIT, PART_LIMIT};
pub use particle::{Particle, ParticleModel, DEFAULT_RADIUS, DEFAULT_DECAY_RATE};
pub use system::{Circle, ParticleSystem, SysModel};

//! A fixed-point fireworks simulation: fireworks fly from a launch point
//! toward a target, detonate into a burst of fading particles, and both
//! populations are advanced once per simulation tick.
//!
//! All coordinates, speeds, hues and intensities are scaled integers: one
//! display unit is `SCALE` model units, so a speed of `1.05` units per tick
//! is written `1050`.  The host (a windowing layer) owns the frame loop and
//! the drawing; this crate owns the whole simulation state and its update
//! rules.
use vstd::prelude::*;

pub mod firework;
pub mod geom;
pub mod model;
pub mod particle;
pub mod sampling;

verus! {

/// Number of model units per display unit (the fixed-point scale).
pub const SCALE: i64 = 1000;

/// Largest magnitude a launch or target coordinate may have.
pub const COORD_LIMIT: i64 = 100_000_000;

/// Largest squared launch-to-target distance: `2 * (2 * COORD_LIMIT)^2`.
pub const DIST_SQ_LIMIT: i64 = 80_000_000_000_000_000;

/// Upper bound accepted by `geom::isqrt` (a little above `DIST_SQ_LIMIT`).
pub const ISQRT_LIMIT: i64 = 100_000_000_000_000_000;

/// Length of a firework's trail buffer.
pub const FW_TRAIL_LEN: usize = 3;

/// Length of a particle's trail buffer.
pub const P_TRAIL_LEN: usize = 5;

/// Largest trail buffer length accepted at creation.
pub const TRAIL_MAX: usize = 100_000;

/// Number of particles emitted by one detonation.
pub const BATCH_SIZE: usize = 100;

/// Initial speed of a firework (2.0 units per tick).
pub const FW_SPEED_INIT: i64 = 2000;

/// Per-tick multiplicative acceleration of a firework (1.05).
pub const FW_ACCEL: i64 = 1050;

/// Largest acceleration factor a well-formed firework may carry (2.0).
pub const FW_ACCEL_MAX: i64 = 2000;

/// Hard cap on a firework's speed, far above anything a viewport allows.
pub const FW_SPEED_CAP: i64 = 1_000_000_000;

/// Base value of the pulsing target-indicator radius (1.0).
pub const RADIUS_INIT: i64 = 1000;

/// Per-tick growth of the target-indicator radius (0.3).
pub const RADIUS_STEP: i64 = 300;

/// Once the radius reaches this bound it resets to the base value (8.0).
pub const RADIUS_BOUND: i64 = 8000;

/// Peak of the radius sawtooth: one step above the bound.
pub const RADIUS_MAX: i64 = 8300;

/// One full turn of the hue circle (1.0).
pub const HUE_UNIT: i64 = 1000;

/// Half-width of the random hue band around a reference hue (0.15).
pub const HUE_SWING: i64 = 150;

/// Largest hue magnitude a well-formed firework may carry.
pub const HUE_LIMIT: i64 = 10_000;

/// Largest hue magnitude a well-formed particle may carry.
pub const P_HUE_LIMIT: i64 = 20_000;

/// Firework brightness band (0.5 to 0.7).
pub const FW_BRIGHT_LO: i64 = 500;

/// Upper end of the firework brightness band.
pub const FW_BRIGHT_HI: i64 = 700;

/// Particle brightness band (0.5 to 0.8).
pub const P_BRIGHT_LO: i64 = 500;

/// Upper end of the particle brightness band.
pub const P_BRIGHT_HI: i64 = 800;

/// Initial particle speed band (1.0 to 10.0).
pub const P_SPEED_LO: i64 = 1000;

/// Upper end of the initial particle speed band, also the speed cap.
pub const P_SPEED_HI: i64 = 10_000;

/// Per-tick multiplicative friction on a particle's speed (0.95).
pub const P_FRICTION: i64 = 950;

/// Constant downward pull applied to a particle every tick (1.0).
pub const P_GRAVITY: i64 = 1000;

/// Initial opacity of a particle (1.0).
pub const ALPHA_INIT: i64 = 1000;

/// Per-particle fade band (0.015 to 0.03).
pub const DECAY_LO: i64 = 15;

/// Upper end of the per-particle fade band.
pub const DECAY_HI: i64 = 30;

/// Largest distance a particle can move in one tick (speed cap plus gravity).
pub const P_STEP_MAX: i64 = 11_000;

/// Ticks between two automatic firework launches.
pub const SPAWN_PERIOD: u8 = 5;

/// Largest viewport dimension, in display units.
pub const VIEW_MAX: u32 = 100_000;

} // verus!

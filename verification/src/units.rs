//! Fixed-point units and the constants of the animation.
//!
//! Every quantity of the simulation is an integer count of a small unit, so
//! that each step is exact and repeatable:
//!
//! * time in nanoseconds of simulated time,
//! * lengths in millionths of a display unit,
//! * angles in billionths of a radian,
//! * colour channels and unit-vector components in millionths.
use vstd::prelude::*;

verus! {

/// Simulation ticks per second of simulated time.
pub const TARGET_FPS: i64 = 60;

/// Simulated time that one tick adds to the clock, in nanoseconds.
pub const TICK_NANOS: u64 = 16_666_666;

/// Simulated time that has to pass after one star before the next is
/// emitted, in nanoseconds.
pub const STAR_DELAY_NANOS: u64 = 100_000_000;

/// Ticks between one star and the next: the least count of ticks that
/// lasts as long as the delay.
pub const TICKS_PER_STAR: u64 = 7;

/// Fixed-point scale of lengths, colour channels and unit vectors: the value
/// that stands for one.
pub const UNIT: i64 = 1_000_000;

/// Largest magnitude of a coordinate that the library works with.
pub const COORD_MAX: i64 = 1_000_000_000_000_000_000;

/// Speed of a star when it is emitted, in display units per second.
pub const STAR_SPEED: i64 = 10;

/// Factor by which a star's velocity is multiplied at every tick.
pub const STAR_ACCEL: i64 = 1;

/// Largest magnitude of a velocity component, in length units per second.
pub const SPEED_MAX: i64 = 10_000_000;

/// Largest distance along one axis that a star covers in one tick.
pub const STEP_MAX: i64 = 166_666;

/// How much faster than the clock a star's hue runs backwards.
pub const STAR_TIME_COLOR_SCALE: i128 = -3;

/// A full turn, in billionths of a radian.
pub const TWO_PI: i64 = 6_283_185_307;

/// Growth of the angular velocity per second, in billionths of a radian per
/// tick.
pub const ANGLE_ACCEL: i64 = 10_000_000;

/// Growth of the angular velocity at every tick, in billionths of a radian
/// per tick.
pub const ANGLE_STEP: i64 = 166_666;

/// Longest piece of a connector, in length units.
pub const MAX_SEGMENT_LEN: u64 = 5_000_000;

/// Strength of the attractor: the shift of a star's seed, in nanoseconds,
/// at a distance of one length unit.
pub const MOUSE_SCALE: i128 = 5_000_000_000_000_000;

/// Radius of the disc drawn for a star in point mode, in length units.
pub const STAR_RADIUS: i64 = 2_000_000;

/// Width of a drawn line, in length units.
pub const LINE_WIDTH: i64 = 4_000_000;

/// Brightness of each channel of the connector to the second nearest star.
pub const DIM_GRAY: i64 = 300_000;

/// The constants that are derived from others agree with them.
pub proof fn lemma_units_agree()
    ensures
        TICK_NANOS == 1_000_000_000int / (TARGET_FPS as int),
        SPEED_MAX == STAR_SPEED * UNIT,
        STEP_MAX == SPEED_MAX / TARGET_FPS,
        ANGLE_STEP == ANGLE_ACCEL / TARGET_FPS,
        TICKS_PER_STAR * TICK_NANOS >= STAR_DELAY_NANOS,
        (TICKS_PER_STAR - 1) * TICK_NANOS < STAR_DELAY_NANOS,
{
}

} // verus!

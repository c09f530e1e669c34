//! A particle flow-field simulator.
//!
//! A dense grid of direction vectors is sampled from three-dimensional
//! gradient noise, and a fixed population of particles is advected by the
//! field: each frame, the field vector at a particle's grid cell feeds its
//! acceleration, velocity is integrated and clamped to a speed limit, and
//! positions wrap around the canvas edges.
//!
//! All geometry is carried in fixed-point coordinates: one unit is a
//! thousandth of a pixel, so a canvas 900 pixels wide spans `900_000` units.
//!
//! The noise sampling itself — a floating-point pipeline from a seed and a
//! time offset to one direction vector per grid cell — is work Verus cannot
//! hold, so it lives with the caller: the field generator consumes the
//! sampled cell vectors as plain fixed-point values and checks nothing else
//! about where they came from.

use vstd::prelude::*;

pub mod field;
pub mod math;
pub mod motion;
pub mod particles;
pub mod vec2;

verus! {

/// Number of grid rows of the flow field.
pub const ROWS: usize = 50;

/// Number of grid columns of the flow field.
pub const COLS: usize = 50;

/// Cells of the flow field: one vector per grid cell.
pub const FIELD_LEN: usize = ROWS * COLS;

/// Size of the particle population created at startup.
pub const PARTICLE_COUNT: usize = 100;

/// The fixed-point denominator: coordinates count thousandths of a pixel.
pub const MILLI: i64 = 1000;

/// Canvas width in thousandths of a pixel (900 pixels).
pub const CANVAS_WIDTH: i64 = 900_000;

/// Canvas height in thousandths of a pixel (900 pixels).
pub const CANVAS_HEIGHT: i64 = 900_000;

/// Speed limit for particles: 10 pixels per step, in thousandths.
pub const SPEED_LIMIT: i64 = 10_000;

/// The squared speed limit.
pub const SPEED_LIMIT_SQ: i64 = 100_000_000;

/// Worst-case speed after clamping: rescaling a too-fast velocity with
/// integer arithmetic can overshoot the limit by at most one thousandth.
pub const SPEED_BOUND: i64 = 10_001;

/// The squared worst-case speed, `SPEED_BOUND * SPEED_BOUND`.
pub const SPEED_BOUND_SQ: i64 = 100_020_001;

/// Magnitude of every field vector: 5 pixels per squared step, in thousandths.
pub const FIELD_MAG: i64 = 5_000;

/// Least squared magnitude a field cell may have: rounding each component
/// to a whole thousandth costs at most `2 * FIELD_MAG * sqrt(2)` of the
/// exact squared magnitude `FIELD_MAG * FIELD_MAG`.
pub const FIELD_MAG_SQ_MIN: i64 = 24_980_000;

/// Greatest squared magnitude a field cell may have.
pub const FIELD_MAG_SQ_MAX: i64 = 25_000_000;

/// Bound on the magnitude of each acceleration component between frames.
pub const ACCEL_LIMIT: i64 = 100_000;

/// Largest time step accepted by the integrator: one full second.
pub const DT_LIMIT: i64 = 1000;

} // verus!

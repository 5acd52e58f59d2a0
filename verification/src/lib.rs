//! Stigmergic foraging simulation core.
//!
//! A colony of agents discovers and retrieves food by depositing and
//! following decaying scent markers held in uniform spatial bucket grids.
//! All quantities are fixed-point integers: world coordinates, marker
//! intensities, food quantities and agent reserves carry a scale of 1000
//! sub-units per world unit, time is counted in milliseconds, and headings
//! are binary angle units with 65536 units to a full turn.

use vstd::prelude::*;

pub mod vec2;
pub mod trig;
pub mod marker;
pub mod food;
pub mod grid;
pub mod rng;
pub mod pheromone;
pub mod food_index;
pub mod world;
pub mod ant;
pub mod colony;

verus! {

/// Fixed-point sub-units per world unit (positions, intensities, reserves).
pub const SCALE: i64 = 1000;

/// Largest world side length, in whole units, that a grid accepts.
pub const MAX_WORLD_UNITS: usize = 32_768;

/// Upper bound on a single marker's intensity, in sub-units.
pub const MAX_INTENSITY: i64 = 10_000_000;

/// Items a single grid cell may hold; further inserts are dropped.
pub const MAX_MARKER_PER_CELL: usize = 1024;

/// An agent's resource budget cap, in sub-units (2000 units).
pub const MAX_RESERVE: i64 = 2_000_000;

/// Period of the steering-direction update, in milliseconds.
pub const DIRECTION_UPDATE_PERIOD: i64 = 125;

/// Period of the marker-deposit behaviour, in milliseconds.
pub const MARKER_PERIOD: i64 = 250;

/// Agent speed scale: sub-units per millisecond along the facing
/// vector, so a step covers at most 50 world units per second.
pub const MOVE_SPEED: i64 = 50;

/// Largest distance, in sub-units, at which a marker can be sensed.
pub const MARKER_DETECTION_RADIUS: i64 = 40_000;

/// Steering gain: how fast the heading turns toward the target.
pub const ROTATION_SPEED: i64 = 10;

/// Distance from the colony centre, in sub-units, that counts as arrival.
pub const COLONY_RADIUS: i64 = 10_000;

/// Reserve level, in sub-units, below which no marker is deposited.
pub const DEPOSIT_THRESHOLD: i64 = 1000;

/// Intensity of the permanent beacon dropped when food is added.
pub const FOOD_BEACON_INTENSITY: i64 = 10_000_000;

/// One unit of food quantity, in sub-units: what a single pick removes.
pub const FOOD_UNIT: i64 = 1000;

/// Binary angle units in a full turn.
pub const FULL_TURN: i64 = 65536;

/// Binary angle units in a half turn (pi radians).
pub const HALF_TURN: i64 = 32768;

/// Binary angle units in a quarter turn.
pub const QUARTER_TURN: i64 = 16384;

/// Binary angle units in an eighth of a turn.
pub const EIGHTH_TURN: i64 = 8192;

/// Fixed-point scale of the trigonometric tables (Q16).
pub const TRIG_SCALE: i64 = 65536;

/// Binary angle units in one radian, rounded.
pub const UNITS_PER_RADIAN: i64 = 10430;

/// Largest heading noise per direction update (about 0.1 pi radians).
pub const DIRECTION_NOISE: i64 = 3277;

/// Largest frame delta accepted, in milliseconds.
pub const MAX_DT: i64 = 1_000_000;

/// Largest position coordinate, in sub-units, of any covered world.
pub const MAX_POS: i64 = 32_768_000;

} // verus!

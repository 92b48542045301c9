//! Configuration constants for the simulation, fixed before the first tick.
//!
//! Angles are measured in arc-minutes: `ANGLE_HALF_TURN` units make a half
//! turn, so one unit is 1/10800 of a half turn. Lengths are measured in
//! milli-units: 1000 length units make one world unit. Sizes are scaled by
//! `SIZE_ONE` and trigonometric values by `TRIG_ONE`.

use vstd::prelude::*;

verus! {

/// Half a turn in angle units (plays the role of pi).
pub const ANGLE_HALF_TURN: i64 = 10800;
/// A full turn in angle units.
pub const ANGLE_TURN: i64 = 21600;
/// A quarter turn in angle units.
pub const ANGLE_QUARTER_TURN: i64 = 5400;
/// An eighth of a turn in angle units (45 degrees).
pub const ANGLE_EIGHTH_TURN: i64 = 2700;

/// Scale of trigonometric values: sin and cos of 1.0 are `TRIG_ONE`.
pub const TRIG_ONE: i64 = 10000;
/// Scale of agent sizes: a size multiplier of 1.0 is `SIZE_ONE`.
pub const SIZE_ONE: i64 = 1000;

/// Heading increment probed and applied by wall avoidance (pi / 60).
pub const WALL_AVOIDANCE: i64 = 180;
/// Largest per-neighbor turn contributed by separation (pi / 90).
pub const SEPARATION: i64 = 120;
/// Largest per-neighbor turn contributed by alignment (pi / 180).
pub const ALIGNMENT: i64 = 60;
/// Largest turn contributed by cohesion (pi / 180).
pub const COHESION: i64 = 60;
/// Fixed multiplier applied to elapsed time during integration.
pub const TIME_RATE: i64 = 120;
/// Number of fish spawned at startup.
pub const NFISH: usize = 400;
/// Number of sharks spawned at startup.
pub const NSHARKS: usize = 0;
/// Base fish speed in milli-units per second, scaled by size at spawn.
pub const FISH_SPEED: i64 = 1250;
/// Base shark speed in milli-units per second, scaled by size at spawn.
pub const SHARK_SPEED: i64 = 750;
/// Distance beyond which a fleeing fish disengages from every shark.
pub const FLIGHT_MAX: i64 = 200_000;
/// Factor applied to a fish's speed while it flees.
pub const FLIGHT_SPEED: i64 = 4;
/// Default vision distance in milli-units, scaled by size at spawn.
pub const VISIBLE_DISTANCE: i64 = 75_000;
/// Default half-angle of the vision cone (three quarters of pi).
pub const VISIBLE_ANGLE: i64 = 8100;
/// Half-angle of a shark's vision cone (a third of pi).
pub const SHARK_VISIBLE_ANGLE: i64 = 3600;
/// Heading noise magnitude for wandering fish (pi / 45).
pub const FISH_NOISE: i64 = 240;
/// Heading noise magnitude for wandering sharks (pi / 90).
pub const SHARK_NOISE: i64 = 120;
/// Smallest and largest fish size multiplier at spawn.
pub const FISH_SIZE_MIN: i64 = 500;
pub const FISH_SIZE_MAX: i64 = 2000;
/// Smallest and largest shark size multiplier at spawn.
pub const SHARK_SIZE_MIN: i64 = 1500;
pub const SHARK_SIZE_MAX: i64 = 6000;
/// Width of the rectangular world in milli-units.
pub const WIDTH: i64 = 1_280_000;
/// Height of the rectangular world in milli-units.
pub const HEIGHT: i64 = 720_000;
/// Walls of the rectangular world.
pub const MIN_X: i64 = -640_000;
pub const MAX_X: i64 = 640_000;
pub const MIN_Y: i64 = -360_000;
pub const MAX_Y: i64 = 360_000;
/// Radius of the circular habitat, centered on the origin.
pub const RADIUS: i64 = 360_000;
/// Selects the circular habitat when true, the rectangular one when false.
pub const USE_CIRCLE: bool = true;

/// Positions are kept within this bound on both axes; it leaves room for
/// the largest single integration step outside the world walls.
pub const POS_LIMIT: i64 = 2_000_000;
/// Largest speed of a calm agent admitted by well-formedness.
pub const SPEED_LIMIT: i64 = 50_000;
/// Cap on the speed of a fleeing fish: repeated flight multipliers
/// saturate here so that speeds stay in the integer domain.
pub const FLEE_SPEED_CAP: i64 = 200_000;
/// Largest size multiplier admitted by well-formedness.
pub const SIZE_LIMIT: i64 = 10_000;
/// Largest vision distance admitted by well-formedness.
pub const VISION_LIMIT: i64 = 1_000_000;
/// Largest elapsed time per tick, in milliseconds, accepted by integration.
pub const DT_LIMIT: u32 = 25;

/// Quadratic-correction coefficient of the arctangent approximation,
/// in angle units (0.273 radians).
pub const ATAN_CURVE: i64 = 938;

} // verus!

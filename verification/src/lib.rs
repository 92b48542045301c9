//! An agent-based flocking simulation: fish agents exhibit separation,
//! alignment and cohesion, react to shark agents by fleeing, wander with
//! random heading noise, and avoid the wall of a circular or rectangular
//! habitat. All simulation state is held in fixed-point integers: headings
//! are angles in arc-minutes (a half turn is 10800 units), positions and
//! distances are thousandths of a world unit, and trigonometric values are
//! scaled by 10000.

pub mod components;
pub mod constants;
pub mod math;
pub mod sim;
pub mod systems;
pub mod utils;

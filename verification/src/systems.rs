//! The per-tick update systems, in the order they run: predator evasion,
//! flocking (separation, alignment, cohesion over the visibility graph),
//! wander noise, wall avoidance, and integration.

pub mod avoid_walls;
pub mod fleeing;
pub mod movement;
pub mod sac;
pub mod wander;

//! Wander: each tick every shark, and every calm fish, perturbs its
//! heading by a fixed noise amount to the left or right with probability
//! one sixth each, and otherwise keeps it.

use vstd::prelude::*;

use crate::components::{Agent, Rotation};
use crate::constants::{FISH_NOISE, SHARK_NOISE};
use crate::math::{is_heading, norm_angle};
use crate::utils::{normalize_radians, Direction};

verus! {

/// The heading after one wander draw: unchanged when straight, turned by
/// `noise` to the left or right otherwise, and normalized.
pub open spec fn spec_wander(r: int, d: Direction, noise: int) -> int {
    match d {
        Direction::Left => norm_angle(r + noise),
        Direction::Right => norm_angle(r - noise),
        Direction::Straight => r,
    }
}

/// Applies one wander draw to a heading.
pub fn wander_step(r: Rotation, d: Direction, noise: i64) -> (r2: Rotation)
    requires
        is_heading(r.0 as int),
        0 <= noise <= crate::constants::ANGLE_HALF_TURN,
    ensures
        r2.0 == spec_wander(r.0 as int, d, noise as int),
        is_heading(r2.0 as int),
{
    match d {
        Direction::Left => Rotation(normalize_radians(r.0 + noise)),
        Direction::Right => Rotation(normalize_radians(r.0 - noise)),
        Direction::Straight => r,
    }
}

/// Whether `after` is a possible wander outcome for the heading of
/// `before`, with all other fields unchanged.
pub open spec fn wander_outcome(before: Agent, after: Agent, noise: int) -> bool {
    exists|d: Direction| after == Agent {
        rotation: Rotation(spec_wander(before.rotation.0 as int, d, noise) as i64),
        ..before
    }
}

/// Whether `after` is a possible joint outcome of the two wander passes
/// (fish first, then sharks) run on `before`: every calm fish and every
/// shark carries one wander outcome of its own noise amount, and fleeing
/// fish are untouched.
pub open spec fn wander_stage_outcome(before: Seq<Agent>, after: Seq<Agent>) -> bool {
    &&& after.len() == before.len()
    &&& forall|i: int|
        0 <= i < before.len() ==> {
            let b = before[i];
            let a = #[trigger] after[i];
            if b.kind is Fish && !b.fleeing.0 {
                wander_outcome(b, a, FISH_NOISE as int)
            } else if b.kind is Shark {
                wander_outcome(b, a, SHARK_NOISE as int)
            } else {
                a == b
            }
        }
}

/// The wander pass for fish: every calm fish draws one random direction
/// and perturbs its heading by the fish noise amount; fleeing fish and
/// sharks are untouched.
pub fn fish_wander(agents: &mut Vec<Agent>)
    requires
        forall|k: int| 0 <= k < old(agents)@.len() ==> (#[trigger] old(agents)@[k]).wf(),
    ensures
        final(agents)@.len() == old(agents)@.len(),
        forall|i: int|
            0 <= i < old(agents)@.len() ==> if old(agents)@[i].kind is Fish && !old(
                agents,
            )@[i].fleeing.0 {
                wander_outcome(old(agents)@[i], #[trigger] final(agents)@[i], FISH_NOISE as int)
            } else {
                final(agents)@[i] == old(agents)@[i]
            },
        forall|k: int| 0 <= k < final(agents)@.len() ==> (#[trigger] final(agents)@[k]).wf(),
        forall|k: int|
            0 <= k < final(agents)@.len() ==> {
                let before = old(agents)@[k];
                let after = #[trigger] final(agents)@[k];
                after.kind == before.kind && after.size == before.size && after.vision
                    == before.vision && after.position == before.position && after.speed
                    == before.speed && after.fleeing == before.fleeing
            },
{
    let ghost orig = agents@;
    let n = agents.len();
    let mut i: usize = 0;
    while i < n
        invariant
            n == orig.len() == agents@.len(),
            0 <= i <= n,
            forall|k: int| 0 <= k < n ==> (#[trigger] orig[k]).wf(),
            forall|k: int| i <= k < n ==> agents@[k] == orig[k],
            forall|k: int|
                0 <= k < i ==> if orig[k].kind is Fish && !orig[k].fleeing.0 {
                    wander_outcome(orig[k], #[trigger] agents@[k], FISH_NOISE as int)
                } else {
                    agents@[k] == orig[k]
                },
            forall|k: int| 0 <= k < n ==> (#[trigger] agents@[k]).wf(),
        decreases n - i,
    {
        let a = agents[i];
        if matches!(a.kind, crate::components::Kind::Fish) && !a.fleeing.0 {
            let d = Direction::next();
            let r2 = wander_step(a.rotation, d, FISH_NOISE);
            let mut a2 = a;
            a2.rotation = r2;
            agents[i] = a2;
            proof {
                assert(a2 == (Agent {
                    rotation: Rotation(
                        spec_wander(a.rotation.0 as int, d, FISH_NOISE as int) as i64,
                    ),
                    ..a
                }));
                assert(wander_outcome(orig[i as int], a2, FISH_NOISE as int));
            }
        }
        i = i + 1;
    }
}

/// The wander pass for sharks: every shark draws one random direction and
/// perturbs its heading by the shark noise amount; fish are untouched.
pub fn sharks_wander(agents: &mut Vec<Agent>)
    requires
        forall|k: int| 0 <= k < old(agents)@.len() ==> (#[trigger] old(agents)@[k]).wf(),
    ensures
        final(agents)@.len() == old(agents)@.len(),
        forall|i: int|
            0 <= i < old(agents)@.len() ==> if old(agents)@[i].kind is Shark {
                wander_outcome(old(agents)@[i], #[trigger] final(agents)@[i], SHARK_NOISE as int)
            } else {
                final(agents)@[i] == old(agents)@[i]
            },
        forall|k: int| 0 <= k < final(agents)@.len() ==> (#[trigger] final(agents)@[k]).wf(),
        forall|k: int|
            0 <= k < final(agents)@.len() ==> {
                let before = old(agents)@[k];
                let after = #[trigger] final(agents)@[k];
                after.kind == before.kind && after.size == before.size && after.vision
                    == before.vision && after.position == before.position && after.speed
                    == before.speed && after.fleeing == before.fleeing
            },
{
    let ghost orig = agents@;
    let n = agents.len();
    let mut i: usize = 0;
    while i < n
        invariant
            n == orig.len() == agents@.len(),
            0 <= i <= n,
            forall|k: int| 0 <= k < n ==> (#[trigger] orig[k]).wf(),
            forall|k: int| i <= k < n ==> agents@[k] == orig[k],
            forall|k: int|
                0 <= k < i ==> if orig[k].kind is Shark {
                    wander_outcome(orig[k], #[trigger] agents@[k], SHARK_NOISE as int)
                } else {
                    agents@[k] == orig[k]
                },
            forall|k: int| 0 <= k < n ==> (#[trigger] agents@[k]).wf(),
        decreases n - i,
    {
        let a = agents[i];
        if matches!(a.kind, crate::components::Kind::Shark) {
            let d = Direction::next();
            let r2 = wander_step(a.rotation, d, SHARK_NOISE);
            let mut a2 = a;
            a2.rotation = r2;
            agents[i] = a2;
            proof {
                assert(a2 == (Agent {
                    rotation: Rotation(
                        spec_wander(a.rotation.0 as int, d, SHARK_NOISE as int) as i64,
                    ),
                    ..a
                }));
                assert(wander_outcome(orig[i as int], a2, SHARK_NOISE as int));
            }
        }
        i = i + 1;
    }
}

} // verus!

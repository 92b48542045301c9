//! Wall avoidance, in two interchangeable strategies: a circular habitat
//! probed by ray-circle intersection, and a rectangular habitat with
//! per-wall accumulated turn forces.

use vstd::prelude::*;

use crate::components::{Agent, Rotation};
use crate::constants::{ANGLE_QUARTER_TURN, RADIUS, VISION_LIMIT, WALL_AVOIDANCE};
use crate::math::norm_angle;
use crate::utils::{distance_to_circle_wall, distance_to_walls, spec_circle_wall, spec_walls};

verus! {

/// The turn magnitude against a wall at proximity `prox`: the avoidance
/// increment scaled by the ratio of the vision distance to the proximity,
/// floored at twice the increment. A proximity that is not ahead (zero or
/// negative) contributes the floor.
pub open spec fn spec_turn_power(vd: int, prox: int) -> int {
    if prox > 0 {
        let scaled = (WALL_AVOIDANCE as int * vd) / prox;
        if scaled >= 2 * WALL_AVOIDANCE as int {
            scaled
        } else {
            2 * WALL_AVOIDANCE as int
        }
    } else {
        2 * WALL_AVOIDANCE as int
    }
}

/// Computes the turn magnitude against a wall at proximity `prox`.
pub fn turn_power(vd: i64, prox: i64) -> (r: i64)
    requires
        0 <= vd <= VISION_LIMIT,
    ensures
        r == spec_turn_power(vd as int, prox as int),
        2 * WALL_AVOIDANCE <= r <= WALL_AVOIDANCE * VISION_LIMIT,
{
    if prox > 0 {
        proof {
            vstd::arithmetic::div_mod::lemma_div_pos_is_pos(
                WALL_AVOIDANCE as int * vd as int,
                prox as int,
            );
            vstd::arithmetic::div_mod::lemma_div_is_ordered_by_denominator(
                WALL_AVOIDANCE as int * vd as int,
                1int,
                prox as int,
            );
            vstd::arithmetic::div_mod::lemma_div_basics(WALL_AVOIDANCE as int * vd as int);
        }
        let scaled = (WALL_AVOIDANCE * vd) / prox;
        if scaled >= 2 * WALL_AVOIDANCE {
            scaled
        } else {
            2 * WALL_AVOIDANCE
        }
    } else {
        2 * WALL_AVOIDANCE
    }
}

/// What circular wall avoidance leaves of one agent: when the wall along
/// the current heading is nearer than the vision distance, the headings
/// one avoidance increment left and right are probed, and the agent turns
/// toward the larger clearance, scaled by how tight that clearance is; a
/// probe that misses the circle counts as unbounded clearance and is
/// never preferred, and the turn magnitude then takes its floor.
pub open spec fn circle_avoid_update(a: Agent) -> Agent {
    let ahead = spec_circle_wall(a.position, a.rotation.0 as int);
    if ahead is Some && ahead->0 < a.vision.distance {
        let dl = spec_circle_wall(a.position, norm_angle(a.rotation.0 + WALL_AVOIDANCE as int));
        let dr = spec_circle_wall(a.position, norm_angle(a.rotation.0 - WALL_AVOIDANCE as int));
        if dl is Some && dr is Some && dl->0 > dr->0 {
            Agent {
                rotation: Rotation(
                    norm_angle(a.rotation.0 + spec_turn_power(a.vision.distance as int, dl->0))
                        as i64,
                ),
                ..a
            }
        } else {
            let power = if dr is Some {
                spec_turn_power(a.vision.distance as int, dr->0)
            } else {
                2 * WALL_AVOIDANCE as int
            };
            Agent { rotation: Rotation(norm_angle(a.rotation.0 - power) as i64), ..a }
        }
    } else {
        a
    }
}

/// The circular wall-avoidance pass over the whole population.
pub fn avoid_circle_walls(agents: &mut Vec<Agent>)
    requires
        forall|k: int| 0 <= k < old(agents)@.len() ==> (#[trigger] old(agents)@[k]).wf(),
    ensures
        final(agents)@.len() == old(agents)@.len(),
        forall|i: int|
            0 <= i < old(agents)@.len() ==> final(agents)@[i] == circle_avoid_update(
                old(agents)@[i],
            ),
        forall|k: int| 0 <= k < final(agents)@.len() ==> (#[trigger] final(agents)@[k]).wf(),
        forall|k: int|
            0 <= k < final(agents)@.len() ==> {
                let before = old(agents)@[k];
                let after = #[trigger] final(agents)@[k];
                after.kind == before.kind && after.size == before.size && after.vision
                    == before.vision && after.position == before.position && after.speed
                    == before.speed && after.fleeing == before.fleeing
            },
{
    let ghost orig = agents@;
    let n = agents.len();
    let mut i: usize = 0;
    while i < n
        invariant
            n == orig.len() == agents@.len(),
            0 <= i <= n,
            forall|k: int| 0 <= k < n ==> (#[trigger] orig[k]).wf(),
            forall|k: int| i <= k < n ==> agents@[k] == orig[k],
            forall|k: int|
                0 <= k < i ==> agents@[k] == #[trigger] circle_avoid_update(orig[k]),
            forall|k: int| 0 <= k < n ==> (#[trigger] agents@[k]).wf(),
        decreases n - i,
    {
        let a = agents[i];
        let ahead = distance_to_circle_wall(a.position, a.rotation);
        let mut hit = false;
        match ahead {
            Option::Some(d) => {
                if d < a.vision.distance {
                    hit = true;
                }
            },
            Option::None => {},
        }
        if hit {
            let rl = Rotation::new(a.rotation.0 + WALL_AVOIDANCE);
            let rr = Rotation::new(a.rotation.0 - WALL_AVOIDANCE);
            let dl = distance_to_circle_wall(a.position, rl);
            let dr = distance_to_circle_wall(a.position, rr);
            let mut go_left = false;
            match (dl, dr) {
                (Option::Some(l), Option::Some(r)) => {
                    if l > r {
                        go_left = true;
                    }
                },
                _ => {},
            }
            let mut a2 = a;
            if go_left {
                let power = turn_power(a.vision.distance, dl.unwrap());
                a2.rotation = Rotation::new(a.rotation.0 + power);
            } else {
                let power = match dr {
                    Option::Some(r) => turn_power(a.vision.distance, r),
                    Option::None => 2 * WALL_AVOIDANCE,
                };
                a2.rotation = Rotation::new(a.rotation.0 - power);
            }
            agents[i] = a2;
        }
        i = i + 1;
    }
    proof {
        assert forall|k: int| 0 <= k < agents@.len() implies {
            let before = orig[k];
            let after = #[trigger] agents@[k];
            after.kind == before.kind && after.size == before.size && after.vision
                == before.vision && after.position == before.position && after.speed
                == before.speed && after.fleeing == before.fleeing
        } by {
            assert(agents@[k] == circle_avoid_update(orig[k]));
        }
    }
}

/// An agent at the habitat center sees the wall at exactly the radius in
/// every direction, so one whose vision distance does not exceed the
/// radius receives no avoidance correction there.
pub proof fn lemma_center_no_correction(a: Agent)
    requires
        a.wf(),
        a.position.x == 0,
        a.position.y == 0,
        a.vision.distance <= RADIUS,
    ensures
        spec_circle_wall(a.position, a.rotation.0 as int) == Some(RADIUS as int),
        circle_avoid_update(a) == a,
{
    let h = a.rotation.0 as int;
    let cx = crate::math::cos_fp(h);
    let cy = crate::math::sin_fp(h);
    assert(a.position.x * cx + a.position.y * cy == 0);
    assert(crate::math::div_trunc(0, crate::constants::TRIG_ONE as int) == 0) by {
        vstd::arithmetic::div_mod::lemma_div_of0(crate::constants::TRIG_ONE as int);
    }
    crate::math::lemma_sqrt_floor_square(RADIUS as int);
}

/// What rectangular wall avoidance leaves of one agent: each wall the
/// agent faces and sees within its vision distance contributes a left or
/// right turn force, the direction chosen to steer away given the current
/// heading quadrant; the larger accumulated side wins, and an exact tie
/// turns right (clockwise).
pub open spec fn square_avoid_update(a: Agent) -> Agent {
    let w = spec_walls(a.position, a.rotation.0 as int);
    let vd = a.vision.distance as int;
    let h = a.rotation.0 as int;
    let lt0 = 0int;
    let rt0 = 0int;
    let lt1 = if w.0 != 0 && w.0 < vd && !(h > 0) { lt0 + spec_turn_power(vd, w.0) } else { lt0 };
    let rt1 = if w.0 != 0 && w.0 < vd && h > 0 { rt0 + spec_turn_power(vd, w.0) } else { rt0 };
    let lt2 = if w.1 != 0 && w.1 < vd && h > 0 { lt1 + spec_turn_power(vd, w.1) } else { lt1 };
    let rt2 = if w.1 != 0 && w.1 < vd && !(h > 0) { rt1 + spec_turn_power(vd, w.1) } else { rt1 };
    let lt3 = if w.2 != 0 && w.2 < vd && h > ANGLE_QUARTER_TURN as int {
        lt2 + spec_turn_power(vd, w.2)
    } else {
        lt2
    };
    let rt3 = if w.2 != 0 && w.2 < vd && !(h > ANGLE_QUARTER_TURN as int) {
        rt2 + spec_turn_power(vd, w.2)
    } else {
        rt2
    };
    let lt4 = if w.3 != 0 && w.3 < vd && !(h < -(ANGLE_QUARTER_TURN as int)) {
        lt3 + spec_turn_power(vd, w.3)
    } else {
        lt3
    };
    let rt4 = if w.3 != 0 && w.3 < vd && h < -(ANGLE_QUARTER_TURN as int) {
        rt3 + spec_turn_power(vd, w.3)
    } else {
        rt3
    };
    if lt4 == rt4 {
        Agent { rotation: Rotation(norm_angle(h - rt4) as i64), ..a }
    } else if lt4 > rt4 {
        Agent { rotation: Rotation(norm_angle(h + lt4) as i64), ..a }
    } else {
        Agent { rotation: Rotation(norm_angle(h - rt4) as i64), ..a }
    }
}

/// The rectangular wall-avoidance pass over the whole population.
pub fn avoid_square_walls(agents: &mut Vec<Agent>)
    requires
        forall|k: int| 0 <= k < old(agents)@.len() ==> (#[trigger] old(agents)@[k]).wf(),
    ensures
        final(agents)@.len() == old(agents)@.len(),
        forall|i: int|
            0 <= i < old(agents)@.len() ==> final(agents)@[i] == square_avoid_update(
                old(agents)@[i],
            ),
        forall|k: int| 0 <= k < final(agents)@.len() ==> (#[trigger] final(agents)@[k]).wf(),
        forall|k: int|
            0 <= k < final(agents)@.len() ==> {
                let before = old(agents)@[k];
                let after = #[trigger] final(agents)@[k];
                after.kind == before.kind && after.size == before.size && after.vision
                    == before.vision && after.position == before.position && after.speed
                    == before.speed && after.fleeing == before.fleeing
            },
{
    let ghost orig = agents@;
    let n = agents.len();
    let mut i: usize = 0;
    while i < n
        invariant
            n == orig.len() == agents@.len(),
            0 <= i <= n,
            forall|k: int| 0 <= k < n ==> (#[trigger] orig[k]).wf(),
            forall|k: int| i <= k < n ==> agents@[k] == orig[k],
            forall|k: int|
                0 <= k < i ==> agents@[k] == #[trigger] square_avoid_update(orig[k]),
            forall|k: int| 0 <= k < n ==> (#[trigger] agents@[k]).wf(),
        decreases n - i,
    {
        let a = agents[i];
        let (left, right, top, bottom) = distance_to_walls(a.position, a.rotation);
        let vd = a.vision.distance;
        let mut left_turn: i64 = 0;
        let mut right_turn: i64 = 0;
        if left != 0 && left < vd {
            let power = turn_power(vd, left);
            if a.rotation.0 > 0 {
                right_turn = right_turn + power;
            } else {
                left_turn = left_turn + power;
            }
        }
        if right != 0 && right < vd {
            let power = turn_power(vd, right);
            if a.rotation.0 > 0 {
                left_turn = left_turn + power;
            } else {
                right_turn = right_turn + power;
            }
        }
        if top != 0 && top < vd {
            let power = turn_power(vd, top);
            if a.rotation.0 > ANGLE_QUARTER_TURN {
                left_turn = left_turn + power;
            } else {
                right_turn = right_turn + power;
            }
        }
        if bottom != 0 && bottom < vd {
            let power = turn_power(vd, bottom);
            if a.rotation.0 < -ANGLE_QUARTER_TURN {
                right_turn = right_turn + power;
            } else {
                left_turn = left_turn + power;
            }
        }
        let mut a2 = a;
        if left_turn == right_turn {
            a2.rotation = Rotation::new(a.rotation.0 - right_turn);
        } else if left_turn > right_turn {
            a2.rotation = Rotation::new(a.rotation.0 + left_turn);
        } else {
            a2.rotation = Rotation::new(a.rotation.0 - right_turn);
        }
        agents[i] = a2;
        i = i + 1;
    }
    proof {
        assert forall|k: int| 0 <= k < agents@.len() implies {
            let before = orig[k];
            let after = #[trigger] agents@[k];
            after.kind == before.kind && after.size == before.size && after.vision
                == before.vision && after.position == before.position && after.speed
                == before.speed && after.fleeing == before.fleeing
        } by {
            assert(agents@[k] == square_avoid_update(orig[k]));
        }
    }
}

} // verus!

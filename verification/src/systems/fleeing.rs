//! The predator-evasion state machine: a fish that sees a shark starts
//! fleeing away from it at multiplied speed; a fleeing fish whose sharks
//! are all farther than the disengage threshold calms down and has its
//! speed divided back.

use vstd::prelude::*;

use crate::components::{spec_distance, spec_point_away, Agent, Fleeing, Rotation, Speed};
use crate::constants::{FLEE_SPEED_CAP, FLIGHT_MAX, FLIGHT_SPEED, SPEED_LIMIT};
use crate::math::lemma_norm_angle_range;
use crate::utils::{can_see_position, spec_can_see};

verus! {

/// The result of one fish meeting one shark during the start-fleeing
/// pass: if the shark is visible, the fish starts (or keeps) fleeing,
/// its speed is multiplied by the flight factor (saturating at the
/// fleeing speed cap), and its heading points straight away from the
/// shark; otherwise the fish is unchanged.
pub open spec fn flee_step(fish: Agent, shark: Agent) -> Agent {
    if spec_can_see(fish.position, fish.rotation.0 as int, fish.vision, shark.size.0 as int,
        shark.position) {
        Agent {
            fleeing: Fleeing(true),
            speed: Speed(
                if fish.speed.0 * FLIGHT_SPEED as int <= FLEE_SPEED_CAP as int {
                    (fish.speed.0 * FLIGHT_SPEED as int) as i64
                } else {
                    FLEE_SPEED_CAP
                },
            ),
            rotation: Rotation(spec_point_away(fish.position, shark.position) as i64),
            ..fish
        }
    } else {
        fish
    }
}

/// The state of one fish after meeting, in index order, every shark among
/// the first `j` agents of `all`.
pub open spec fn flee_fold(fish: Agent, all: Seq<Agent>, j: int) -> Agent
    decreases j,
{
    if j <= 0 {
        fish
    } else {
        let prev = flee_fold(fish, all, j - 1);
        if all[j - 1].kind is Shark {
            flee_step(prev, all[j - 1])
        } else {
            prev
        }
    }
}

/// One evasion step keeps an agent well-formed and changes only its
/// fleeing flag, speed and rotation.
pub proof fn lemma_flee_step_wf(fish: Agent, shark: Agent)
    requires
        fish.wf(),
        fish.kind is Fish,
        shark.wf(),
    ensures
        flee_step(fish, shark).wf(),
        flee_step(fish, shark).kind == fish.kind,
        flee_step(fish, shark).position == fish.position,
        flee_step(fish, shark).size == fish.size,
        flee_step(fish, shark).vision == fish.vision,
        fish.fleeing.0 ==> flee_step(fish, shark).fleeing.0,
{
    let a = flee_step(fish, shark);
    if a != fish {
        lemma_norm_angle_range(
            crate::math::angle_of(
                shark.position.x - fish.position.x,
                shark.position.y - fish.position.y,
            ) + crate::constants::ANGLE_HALF_TURN as int,
        );
    }
}

/// The whole evasion fold keeps an agent well-formed and changes only its
/// fleeing flag, speed and rotation.
pub proof fn lemma_flee_fold_wf(fish: Agent, all: Seq<Agent>, j: int)
    requires
        fish.wf(),
        fish.kind is Fish,
        0 <= j <= all.len(),
        forall|k: int| 0 <= k < all.len() ==> (#[trigger] all[k]).wf(),
    ensures
        flee_fold(fish, all, j).wf(),
        flee_fold(fish, all, j).kind == fish.kind,
        flee_fold(fish, all, j).position == fish.position,
        flee_fold(fish, all, j).size == fish.size,
        flee_fold(fish, all, j).vision == fish.vision,
        fish.fleeing.0 ==> flee_fold(fish, all, j).fleeing.0,
    decreases j,
{
    if j > 0 {
        lemma_flee_fold_wf(fish, all, j - 1);
        if all[j - 1].kind is Shark {
            lemma_flee_step_wf(flee_fold(fish, all, j - 1), all[j - 1]);
        }
    }
}

/// What the start-fleeing pass leaves at index `i`: calm fish meet every
/// shark in order; fleeing fish, and sharks, are unchanged.
pub open spec fn start_fleeing_update(all: Seq<Agent>, i: int) -> Agent {
    let a = all[i];
    if a.kind is Fish && !a.fleeing.0 {
        flee_fold(a, all, all.len() as int)
    } else {
        a
    }
}

/// The start-fleeing pass: every calm fish that sees a shark turns to
/// flee. Each visible shark in index order overwrites the flee heading
/// and re-applies the speed multiplier; the last one wins.
pub fn start_fleeing(agents: &mut Vec<Agent>)
    requires
        forall|k: int| 0 <= k < old(agents)@.len() ==> (#[trigger] old(agents)@[k]).wf(),
    ensures
        final(agents)@.len() == old(agents)@.len(),
        forall|i: int|
            0 <= i < old(agents)@.len() ==> final(agents)@[i] == start_fleeing_update(
                old(agents)@,
                i,
            ),
        forall|k: int| 0 <= k < final(agents)@.len() ==> (#[trigger] final(agents)@[k]).wf(),
        forall|k: int|
            0 <= k < final(agents)@.len() ==> {
                let before = old(agents)@[k];
                let after = #[trigger] final(agents)@[k];
                after.kind == before.kind && after.size == before.size && after.vision
                    == before.vision && after.position == before.position
            },
{
    let ghost orig = agents@;
    let n = agents.len();
    let mut i: usize = 0;
    while i < n
        invariant
            n == orig.len() == agents@.len(),
            0 <= i <= n,
            forall|k: int| 0 <= k < n ==> (#[trigger] orig[k]).wf(),
            forall|k: int| i <= k < n ==> agents@[k] == orig[k],
            forall|k: int|
                0 <= k < i ==> agents@[k] == #[trigger] start_fleeing_update(orig, k),
            forall|k: int|
                0 <= k < n ==> (#[trigger] agents@[k]).kind == orig[k].kind && agents@[k].wf(),
        decreases n - i,
    {
        let a0 = agents[i];
        if matches!(a0.kind, crate::components::Kind::Fish) && !a0.fleeing.0 {
            let mut a = a0;
            let mut j: usize = 0;
            while j < n
                invariant
                    n == orig.len() == agents@.len(),
                    0 <= j <= n,
                    0 <= i < n,
                    forall|k: int| 0 <= k < n ==> (#[trigger] orig[k]).wf(),
                    forall|k: int| i <= k < n ==> agents@[k] == orig[k],
                    forall|k: int|
                        0 <= k < i ==> agents@[k] == #[trigger] start_fleeing_update(orig, k),
                    forall|k: int| 0 <= k < n ==> (#[trigger] agents@[k]).kind == orig[k].kind,
                    a0 == orig[i as int],
                    a0.kind is Fish,
                    !a0.fleeing.0,
                    a == flee_fold(a0, orig, j as int),
                    a.wf(),
                decreases n - j,
            {
                proof {
                    lemma_flee_fold_wf(a0, orig, j as int);
                }
                let s = agents[j];
                if matches!(s.kind, crate::components::Kind::Shark) {
                    proof {
                        if j < i {
                            assert(agents@[j as int] == start_fleeing_update(orig, j as int));
                        }
                    }
                    assert(s == orig[j as int]);
                    if can_see_position(a.position, a.rotation, a.vision, s.size, s.position) {
                        let s4 = a.speed.0 * FLIGHT_SPEED;
                        a.fleeing = Fleeing(true);
                        a.speed = Speed(
                            if s4 <= FLEE_SPEED_CAP {
                                s4
                            } else {
                                FLEE_SPEED_CAP
                            },
                        );
                        a.rotation = a.position.point_away(s.position);
                    }
                    proof {
                        lemma_flee_step_wf(flee_fold(a0, orig, j as int), orig[j as int]);
                    }
                }
                j = j + 1;
            }
            proof {
                lemma_flee_fold_wf(a0, orig, n as int);
            }
            agents[i] = a;
        }
        i = i + 1;
    }
    proof {
        assert forall|k: int| 0 <= k < agents@.len() implies {
            let before = orig[k];
            let after = #[trigger] agents@[k];
            after.kind == before.kind && after.size == before.size && after.vision
                == before.vision && after.position == before.position
        } by {
            assert(agents@[k] == start_fleeing_update(orig, k));
            if orig[k].kind is Fish && !orig[k].fleeing.0 {
                lemma_flee_fold_wf(orig[k], orig, orig.len() as int);
            }
        }
    }
}

/// Whether every shark in `all` is farther from `a` than the disengage
/// threshold.
pub open spec fn all_sharks_far(a: Agent, all: Seq<Agent>) -> bool {
    forall|j: int|
        0 <= j < all.len() && (#[trigger] all[j]).kind is Shark ==> spec_distance(
            a.position,
            all[j].position,
        ) > FLIGHT_MAX as int
}

/// What the stop-fleeing pass leaves at index `i`: a fleeing fish whose
/// sharks are all out of range calms down, with its speed divided back by
/// the flight factor; everything else is unchanged.
pub open spec fn stop_fleeing_update(all: Seq<Agent>, i: int) -> Agent {
    let a = all[i];
    if a.kind is Fish && a.fleeing.0 && all_sharks_far(a, all) {
        Agent {
            fleeing: Fleeing(false),
            speed: Speed((a.speed.0 as int / FLIGHT_SPEED as int) as i64),
            ..a
        }
    } else {
        a
    }
}

/// The stop-fleeing pass: a fleeing fish with no shark within the
/// disengage distance returns to calm and sheds the flight speed factor.
pub fn stop_fleeing(agents: &mut Vec<Agent>)
    requires
        forall|k: int| 0 <= k < old(agents)@.len() ==> (#[trigger] old(agents)@[k]).wf(),
    ensures
        final(agents)@.len() == old(agents)@.len(),
        forall|i: int|
            0 <= i < old(agents)@.len() ==> final(agents)@[i] == stop_fleeing_update(
                old(agents)@,
                i,
            ),
        forall|k: int| 0 <= k < final(agents)@.len() ==> (#[trigger] final(agents)@[k]).wf(),
        forall|k: int|
            0 <= k < final(agents)@.len() ==> {
                let before = old(agents)@[k];
                let after = #[trigger] final(agents)@[k];
                after.kind == before.kind && after.size == before.size && after.vision
                    == before.vision && after.position == before.position
            },
{
    let ghost orig = agents@;
    let n = agents.len();
    let mut i: usize = 0;
    while i < n
        invariant
            n == orig.len() == agents@.len(),
            0 <= i <= n,
            forall|k: int| 0 <= k < n ==> (#[trigger] orig[k]).wf(),
            forall|k: int| i <= k < n ==> agents@[k] == orig[k],
            forall|k: int|
                0 <= k < i ==> agents@[k] == #[trigger] stop_fleeing_update(orig, k),
            forall|k: int| 0 <= k < n ==> (#[trigger] agents@[k]).kind == orig[k].kind,
            forall|k: int| 0 <= k < n ==> (#[trigger] agents@[k]).wf(),
        decreases n - i,
    {
        let a = agents[i];
        if matches!(a.kind, crate::components::Kind::Fish) && a.fleeing.0 {
            let mut far = true;
            let mut j: usize = 0;
            while j < n
                invariant
                    n == orig.len() == agents@.len(),
                    0 <= j <= n,
                    0 <= i < n,
                    forall|k: int| 0 <= k < n ==> (#[trigger] orig[k]).wf(),
                    forall|k: int| i <= k < n ==> agents@[k] == orig[k],
                    forall|k: int|
                        0 <= k < i ==> agents@[k] == #[trigger] stop_fleeing_update(orig, k),
                    forall|k: int| 0 <= k < n ==> (#[trigger] agents@[k]).kind == orig[k].kind,
                    forall|k: int| 0 <= k < n ==> (#[trigger] agents@[k]).wf(),
                    a == orig[i as int],
                    a.wf(),
                    far == (forall|k: int|
                        0 <= k < j && (#[trigger] orig[k]).kind is Shark ==> spec_distance(
                            a.position,
                            orig[k].position,
                        ) > FLIGHT_MAX as int),
                decreases n - j,
            {
                let s = agents[j];
                if matches!(s.kind, crate::components::Kind::Shark) {
                    proof {
                        if j < i {
                            assert(agents@[j as int] == stop_fleeing_update(orig, j as int));
                        }
                    }
                    assert(s.position == orig[j as int].position);
                    let d = a.position.distance(s.position);
                    if d <= FLIGHT_MAX {
                        far = false;
                    }
                }
                j = j + 1;
            }
            if far {
                let mut a2 = a;
                a2.fleeing = Fleeing(false);
                a2.speed = Speed(a.speed.0 / FLIGHT_SPEED);
                agents[i] = a2;
                proof {
                    assert(a.speed.0 as int / 4int >= 1) by {
                        vstd::arithmetic::div_mod::lemma_div_is_ordered(
                            4int,
                            a.speed.0 as int,
                            4int,
                        );
                    }
                    assert(a.speed.0 as int / 4int <= SPEED_LIMIT as int) by {
                        vstd::arithmetic::div_mod::lemma_div_is_ordered(
                            a.speed.0 as int,
                            FLEE_SPEED_CAP as int,
                            4int,
                        );
                    }
                }
            }
        }
        i = i + 1;
    }
    proof {
        assert forall|k: int| 0 <= k < agents@.len() implies {
            let before = orig[k];
            let after = #[trigger] agents@[k];
            after.kind == before.kind && after.size == before.size && after.vision
                == before.vision && after.position == before.position
        } by {
            assert(agents@[k] == stop_fleeing_update(orig, k));
        }
    }
}

/// With exactly one shark in the population, the evasion fold reduces to
/// one evasion step against it, once the fold has passed its index.
proof fn lemma_flee_fold_single_shark(fish: Agent, all: Seq<Agent>, j: int, upto: int)
    requires
        0 <= j < all.len(),
        all[j].kind is Shark,
        forall|k: int| 0 <= k < all.len() && k != j ==> !((#[trigger] all[k]).kind is Shark),
        0 <= upto <= all.len(),
    ensures
        flee_fold(fish, all, upto) == if upto > j {
            flee_step(fish, all[j])
        } else {
            fish
        },
    decreases upto,
{
    if upto > 0 {
        lemma_flee_fold_single_shark(fish, all, j, upto - 1);
    }
}

/// The fleeing transition: after the start-fleeing pass, a calm fish that
/// saw the lone shark is fleeing, its speed multiplied by the flight
/// factor, and its heading points straight away from the shark -- on the
/// angle of the vector from the shark's position to its own.
pub proof fn lemma_flee_transition(all: Seq<Agent>, i: int, j: int)
    requires
        0 <= i < all.len(),
        0 <= j < all.len(),
        forall|k: int| 0 <= k < all.len() ==> (#[trigger] all[k]).wf(),
        all[i].kind is Fish,
        !all[i].fleeing.0,
        all[j].kind is Shark,
        forall|k: int| 0 <= k < all.len() && k != j ==> !((#[trigger] all[k]).kind is Shark),
        spec_can_see(all[i].position, all[i].rotation.0 as int, all[i].vision,
            all[j].size.0 as int, all[j].position),
    ensures
        start_fleeing_update(all, i).fleeing.0,
        start_fleeing_update(all, i).speed.0 == all[i].speed.0 * FLIGHT_SPEED as int,
        start_fleeing_update(all, i).rotation.0 == spec_point_away(all[i].position,
            all[j].position),
        all[i].position != all[j].position ==> start_fleeing_update(all, i).rotation.0
            == crate::math::angle_of(all[i].position.x - all[j].position.x,
            all[i].position.y - all[j].position.y),
{
    lemma_flee_fold_single_shark(all[i], all, j, all.len() as int);
    lemma_flee_round_trip(all[i], all[j]);
    if all[i].position != all[j].position {
        crate::math::lemma_angle_of_opposite(
            all[j].position.x - all[i].position.x,
            all[j].position.y - all[i].position.y,
        );
    }
}

/// Disengagement: after the stop-fleeing pass, a fleeing fish with every
/// shark beyond the disengage threshold is calm again, its speed divided
/// by the flight factor, and nothing else about it has changed.
pub proof fn lemma_disengage(all: Seq<Agent>, i: int)
    requires
        0 <= i < all.len(),
        all[i].kind is Fish,
        all[i].fleeing.0,
        all_sharks_far(all[i], all),
    ensures
        !stop_fleeing_update(all, i).fleeing.0,
        stop_fleeing_update(all, i).speed.0 == all[i].speed.0 as int / FLIGHT_SPEED as int,
        stop_fleeing_update(all, i).rotation == all[i].rotation,
        stop_fleeing_update(all, i).position == all[i].position,
{
}

/// Entering and then leaving flight restores a calm fish's exact speed:
/// the multiplier applied on entry is divided back out on exit.
pub proof fn lemma_flee_round_trip(fish: Agent, shark: Agent)
    requires
        fish.wf(),
        fish.kind is Fish,
        !fish.fleeing.0,
        shark.wf(),
        spec_can_see(fish.position, fish.rotation.0 as int, fish.vision, shark.size.0 as int,
            shark.position),
    ensures
        flee_step(fish, shark).fleeing.0,
        flee_step(fish, shark).speed.0 == fish.speed.0 * FLIGHT_SPEED as int,
        flee_step(fish, shark).rotation.0 == spec_point_away(fish.position, shark.position),
        flee_step(fish, shark).speed.0 as int / FLIGHT_SPEED as int == fish.speed.0,
{
    assert(fish.speed.0 * 4int <= FLEE_SPEED_CAP as int);
    vstd::arithmetic::div_mod::lemma_div_multiples_vanish(fish.speed.0 as int, 4int);
    assert(4int * fish.speed.0 == fish.speed.0 * 4int);
}

} // verus!

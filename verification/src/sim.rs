//! The per-tick pipeline over the whole population, in the fixed stage
//! order: evasion start, evasion stop, flocking, wander, wall avoidance,
//! integration. Each stage reads only the committed output of the one
//! before it.

use vstd::prelude::*;

use crate::components::{Agent, Position, Rotation, Size};
use crate::constants::{
    DT_LIMIT, FISH_SIZE_MAX, FISH_SIZE_MIN, FISH_SPEED, MAX_X, MAX_Y, MIN_X, MIN_Y, RADIUS,
    SHARK_SIZE_MAX, SHARK_SIZE_MIN, SHARK_SPEED, SHARK_VISIBLE_ANGLE, SIZE_ONE, USE_CIRCLE,
    VISIBLE_ANGLE, VISIBLE_DISTANCE,
};
use crate::systems::avoid_walls::{
    avoid_circle_walls, avoid_square_walls, circle_avoid_update, square_avoid_update,
};
use crate::systems::fleeing::{start_fleeing, start_fleeing_update, stop_fleeing,
    stop_fleeing_update};
use crate::systems::movement::{move_update, movement};
use crate::systems::sac::{sac, spec_sac};
use crate::systems::wander::{fish_wander, sharks_wander, wander_stage_outcome};
use crate::utils::random_in_range;

verus! {

/// How a whole tick transforms the population, stage by stage in the
/// fixed order: the start-fleeing pass, then the stop-fleeing pass, then
/// flocking, then some joint wander outcome, then wall avoidance against
/// the selected habitat shape, then integration.
pub open spec fn tick_relation(
    before: Seq<Agent>,
    after: Seq<Agent>,
    dt_ms: int,
    circle_habitat: bool,
) -> bool {
    let fled = Seq::new(before.len(), |i: int| start_fleeing_update(before, i));
    let calmed = Seq::new(fled.len(), |i: int| stop_fleeing_update(fled, i));
    let flocked = spec_sac(calmed);
    exists|wandered: Seq<Agent>|
        {
            &&& #[trigger] wander_stage_outcome(flocked, wandered)
            &&& after == Seq::new(
                wandered.len(),
                |i: int|
                    move_update(
                        if circle_habitat {
                            circle_avoid_update(wandered[i])
                        } else {
                            square_avoid_update(wandered[i])
                        },
                        dt_ms,
                    ),
            )
        }
}

/// One simulation tick: evasion transitions, flocking, wander noise, wall
/// avoidance against the configured habitat shape, and integration over
/// `dt_ms` milliseconds of elapsed time. The result is the staged
/// composition that `tick_relation` states; the population, every agent's
/// identity (kind, size, vision), and well-formedness are preserved.
pub fn tick(agents: &mut Vec<Agent>, dt_ms: u32, circle_habitat: bool)
    requires
        forall|k: int| 0 <= k < old(agents)@.len() ==> (#[trigger] old(agents)@[k]).wf(),
        old(agents)@.len() <= 1_000_000,
        dt_ms <= DT_LIMIT,
    ensures
        tick_relation(old(agents)@, final(agents)@, dt_ms as int, circle_habitat),
        final(agents)@.len() == old(agents)@.len(),
        forall|k: int| 0 <= k < final(agents)@.len() ==> (#[trigger] final(agents)@[k]).wf(),
        forall|k: int|
            0 <= k < final(agents)@.len() ==> {
                let before = old(agents)@[k];
                let after = #[trigger] final(agents)@[k];
                after.kind == before.kind && after.size == before.size && after.vision
                    == before.vision
            },
{
    let ghost s0 = agents@;
    start_fleeing(agents);
    let ghost g1 = agents@;
    stop_fleeing(agents);
    let ghost g2 = agents@;
    sac(agents);
    let ghost g3 = agents@;
    fish_wander(agents);
    let ghost g4 = agents@;
    sharks_wander(agents);
    let ghost g5 = agents@;
    if circle_habitat {
        avoid_circle_walls(agents);
    } else {
        avoid_square_walls(agents);
    }
    let ghost g6 = agents@;
    movement(agents, dt_ms);
    proof {
        let fled = Seq::new(s0.len(), |i: int| start_fleeing_update(s0, i));
        assert(g1 =~= fled);
        let calmed = Seq::new(fled.len(), |i: int| stop_fleeing_update(fled, i));
        assert(g2 =~= calmed);
        let flocked = spec_sac(calmed);
        assert(g3 == flocked);
        assert(wander_stage_outcome(flocked, g5)) by {
            assert forall|i: int| 0 <= i < flocked.len() implies {
                let b = flocked[i];
                let a = #[trigger] g5[i];
                if b.kind is Fish && !b.fleeing.0 {
                    crate::systems::wander::wander_outcome(
                        b,
                        a,
                        crate::constants::FISH_NOISE as int,
                    )
                } else if b.kind is Shark {
                    crate::systems::wander::wander_outcome(
                        b,
                        a,
                        crate::constants::SHARK_NOISE as int,
                    )
                } else {
                    a == b
                }
            } by {
                if flocked[i].kind is Fish && !flocked[i].fleeing.0 {
                    assert(g5[i] == g4[i]);
                } else if flocked[i].kind is Shark {
                    assert(g4[i] == g3[i]);
                } else {
                    assert(g4[i] == g3[i] && g5[i] == g4[i]);
                }
            }
        }
        let stepped = Seq::new(
            g5.len(),
            |i: int|
                move_update(
                    if circle_habitat {
                        circle_avoid_update(g5[i])
                    } else {
                        square_avoid_update(g5[i])
                    },
                    dt_ms as int,
                ),
        );
        assert(agents@ =~= stepped);
        assert(tick_relation(s0, agents@, dt_ms as int, circle_habitat));
    }
}

/// Spawns one fish with the randomized attributes of startup: a size in
/// the fish range, a position sampled in the configured habitat shape, a
/// uniformly random normalized heading, and the speed and vision derived
/// from the size.
pub fn random_fish() -> (a: Agent)
    ensures
        a.wf(),
        a.kind is Fish,
        !a.fleeing.0,
        FISH_SIZE_MIN <= a.size.0 <= FISH_SIZE_MAX,
        a.speed.0 == (FISH_SPEED as int * a.size.0) / (SIZE_ONE as int),
        a.vision.distance == (VISIBLE_DISTANCE as int * a.size.0) / (SIZE_ONE as int),
        a.vision.angle == VISIBLE_ANGLE,
        USE_CIRCLE ==> a.position.x * a.position.x + a.position.y * a.position.y <= RADIUS as int
            * RADIUS as int,
        !USE_CIRCLE ==> MIN_X <= a.position.x <= MAX_X && MIN_Y <= a.position.y <= MAX_Y,
{
    let size = Size(random_in_range(FISH_SIZE_MIN, FISH_SIZE_MAX));
    let position = if USE_CIRCLE {
        Position::random_in_circle()
    } else {
        Position::random_in_square()
    };
    let rotation = Rotation::new(
        random_in_range(
            -crate::constants::ANGLE_HALF_TURN,
            crate::constants::ANGLE_HALF_TURN - 1,
        ),
    );
    Agent::new_fish(position, rotation, size)
}

/// Spawns one shark with the randomized attributes of startup: a size in
/// the shark range, the default position and heading, the speed and
/// vision distance derived from the size, and the narrowed shark cone.
pub fn random_shark() -> (a: Agent)
    ensures
        a.wf(),
        a.kind is Shark,
        !a.fleeing.0,
        SHARK_SIZE_MIN <= a.size.0 <= SHARK_SIZE_MAX,
        a.position == (Position { x: 0, y: 0 }),
        a.rotation.0 == 0,
        a.speed.0 == (SHARK_SPEED as int * a.size.0) / (SIZE_ONE as int),
        a.vision.distance == (VISIBLE_DISTANCE as int * a.size.0) / (SIZE_ONE as int),
        a.vision.angle == SHARK_VISIBLE_ANGLE,
{
    let size = Size(random_in_range(SHARK_SIZE_MIN, SHARK_SIZE_MAX));
    Agent::new_shark(size)
}

} // verus!

//! Integration: each agent's position advances along its heading by its
//! speed, the elapsed time, and the fixed time-rate constant, then wraps
//! toroidally against the rectangular world bounds.

use vstd::prelude::*;

use crate::components::{Agent, Position};
use crate::constants::{
    DT_LIMIT, FLEE_SPEED_CAP, HEIGHT, MAX_X, MAX_Y, MIN_X, MIN_Y, TIME_RATE, TRIG_ONE, WIDTH,
};
use crate::math::{cos_fp, div_trunc, div_trunc_i64, sin_fp};

verus! {

/// Wraps a coordinate that stepped past a wall to the opposite side, by
/// one world width or height; coordinates inside the walls are unchanged.
pub open spec fn wrap_coord(v: int, lo: int, hi: int, span: int) -> int {
    if v > hi {
        v - span
    } else if v < lo {
        v + span
    } else {
        v
    }
}

/// One axis of the integration step: the velocity component scaled by the
/// elapsed milliseconds and the time rate.
pub open spec fn step_delta(vel: int, dt_ms: int) -> int {
    div_trunc(vel * dt_ms * TIME_RATE as int, 1000)
}

/// The position an agent reaches after one integration step.
pub open spec fn move_update(a: Agent, dt_ms: int) -> Agent {
    let vx = div_trunc(cos_fp(a.rotation.0 as int) * a.speed.0, TRIG_ONE as int);
    let vy = div_trunc(sin_fp(a.rotation.0 as int) * a.speed.0, TRIG_ONE as int);
    Agent {
        position: Position {
            x: wrap_coord(
                a.position.x + step_delta(vx, dt_ms),
                MIN_X as int,
                MAX_X as int,
                WIDTH as int,
            ) as i64,
            y: wrap_coord(
                a.position.y + step_delta(vy, dt_ms),
                MIN_Y as int,
                MAX_Y as int,
                HEIGHT as int,
            ) as i64,
        },
        ..a
    }
}

/// A coordinate within the position limit, moved by at most one maximal
/// step and then wrapped, stays within the position limit.
proof fn lemma_wrap_in_limit(v: int, lo: int, hi: int, span: int)
    requires
        -2_600_000 <= v <= 2_600_000,
        lo == -hi,
        360_000 <= hi <= 640_000,
        span == 2 * hi,
    ensures
        -(crate::constants::POS_LIMIT as int) <= wrap_coord(v, lo, hi, span)
            <= crate::constants::POS_LIMIT as int,
{
}

/// A coordinate that stepped past the far wall by no more than one world
/// width wraps back by exactly one width, landing inside the walls.
pub proof fn lemma_wrap_past_wall(x: int)
    requires
        (MAX_X as int) < x <= MAX_X as int + WIDTH as int,
    ensures
        wrap_coord(x, MIN_X as int, MAX_X as int, WIDTH as int) == x - WIDTH as int,
        (MIN_X as int) < wrap_coord(x, MIN_X as int, MAX_X as int, WIDTH as int) <= MAX_X as int,
{
}

/// The integration pass: every agent advances along its heading and is
/// wrapped against the rectangular world bounds.
pub fn movement(agents: &mut Vec<Agent>, dt_ms: u32)
    requires
        forall|k: int| 0 <= k < old(agents)@.len() ==> (#[trigger] old(agents)@[k]).wf(),
        dt_ms <= DT_LIMIT,
    ensures
        final(agents)@.len() == old(agents)@.len(),
        forall|i: int|
            0 <= i < old(agents)@.len() ==> final(agents)@[i] == move_update(
                old(agents)@[i],
                dt_ms as int,
            ),
        forall|k: int| 0 <= k < final(agents)@.len() ==> (#[trigger] final(agents)@[k]).wf(),
        forall|k: int|
            0 <= k < final(agents)@.len() ==> {
                let before = old(agents)@[k];
                let after = #[trigger] final(agents)@[k];
                after.kind == before.kind && after.size == before.size && after.vision
                    == before.vision && after.rotation == before.rotation && after.speed
                    == before.speed && after.fleeing == before.fleeing
            },
{
    let ghost orig = agents@;
    let n = agents.len();
    let mut i: usize = 0;
    while i < n
        invariant
            n == orig.len() == agents@.len(),
            0 <= i <= n,
            dt_ms <= DT_LIMIT,
            forall|k: int| 0 <= k < n ==> (#[trigger] orig[k]).wf(),
            forall|k: int| i <= k < n ==> agents@[k] == orig[k],
            forall|k: int|
                0 <= k < i ==> agents@[k] == #[trigger] move_update(orig[k], dt_ms as int),
            forall|k: int| 0 <= k < n ==> (#[trigger] agents@[k]).wf(),
        decreases n - i,
    {
        let a = agents[i];
        let v = a.rotation.to_velocity(a.speed);
        proof {
            assert(-5_000_000int <= v.x as int * dt_ms as int <= 5_000_000int
                && -600_000_000int <= v.x as int * dt_ms as int * TIME_RATE as int
                <= 600_000_000int && -5_000_000int <= v.y as int * dt_ms as int <= 5_000_000int
                && -600_000_000int <= v.y as int * dt_ms as int * TIME_RATE as int
                <= 600_000_000int) by (nonlinear_arith)
                requires
                    -(FLEE_SPEED_CAP as int) <= v.x as int <= FLEE_SPEED_CAP as int,
                    -(FLEE_SPEED_CAP as int) <= v.y as int <= FLEE_SPEED_CAP as int,
                    0 <= dt_ms as int <= 25,
                    TIME_RATE as int == 120,
                    FLEE_SPEED_CAP as int == 200_000;
            crate::math::lemma_div_trunc_bound(
                v.x as int * dt_ms as int * TIME_RATE as int,
                1000int,
                600_000int,
            );
            crate::math::lemma_div_trunc_bound(
                v.y as int * dt_ms as int * TIME_RATE as int,
                1000int,
                600_000int,
            );
        }
        let dx = div_trunc_i64(v.x * dt_ms as i64 * TIME_RATE, 1000);
        let dy = div_trunc_i64(v.y * dt_ms as i64 * TIME_RATE, 1000);
        let mut x = a.position.x + dx;
        let mut y = a.position.y + dy;
        if x > MAX_X {
            x = x - WIDTH;
        } else if x < MIN_X {
            x = x + WIDTH;
        }
        if y > MAX_Y {
            y = y - HEIGHT;
        } else if y < MIN_Y {
            y = y + HEIGHT;
        }
        proof {
            lemma_wrap_in_limit(
                orig[i as int].position.x + step_delta(v.x as int, dt_ms as int),
                MIN_X as int,
                MAX_X as int,
                WIDTH as int,
            );
            lemma_wrap_in_limit(
                orig[i as int].position.y + step_delta(v.y as int, dt_ms as int),
                MIN_Y as int,
                MAX_Y as int,
                HEIGHT as int,
            );
        }
        let mut a2 = a;
        a2.position = Position { x, y };
        agents[i] = a2;
        i = i + 1;
    }
    proof {
        assert forall|k: int| 0 <= k < agents@.len() implies {
            let before = orig[k];
            let after = #[trigger] agents@[k];
            after.kind == before.kind && after.size == before.size && after.vision
                == before.vision && after.rotation == before.rotation && after.speed
                == before.speed && after.fleeing == before.fleeing
        } by {
            assert(agents@[k] == move_update(orig[k], dt_ms as int));
        }
    }
}

} // verus!

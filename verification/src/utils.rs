//! Shared utilities: angle normalization, random sampling helpers, the
//! wander direction draw, velocities, the can-see predicate, and the wall
//! distance computations for both habitat shapes.

use vstd::prelude::*;
use vstd::arithmetic::div_mod::lemma_fundamental_div_mod_converse_mod;
use vstd::arithmetic::div_mod::lemma_small_mod;

use crate::components::{Position, Rotation, Size, Vision};
use crate::constants::{
    ANGLE_HALF_TURN, ANGLE_TURN, ANGLE_QUARTER_TURN, MIN_X, MAX_X, MIN_Y, MAX_Y, RADIUS, SIZE_ONE,
    SIZE_LIMIT, TRIG_ONE, VISION_LIMIT,
};
use crate::math::{
    cos_fp, cos_fp_exec, div_trunc, div_trunc_i64, is_heading, isqrt,
    lemma_norm_angle_range, lemma_sqrt_floor_unique, norm_angle, sin_fp, sin_fp_exec, sqrt_floor,
};

verus! {

/// Relies on `rand::random`: a pseudo-random draw about which nothing is
/// assumed.
#[verifier::external_body]
fn draw_u32() -> u32 {
    rand::random::<u32>()
}

/// Normalizes an angle into the range `[-ANGLE_HALF_TURN, ANGLE_HALF_TURN)`.
pub fn normalize_radians(a: i64) -> (r: i64)
    ensures
        r == norm_angle(a as int),
        is_heading(r as int),
{
    proof {
        lemma_norm_angle_range(a as int);
    }
    let m: i64 = a % ANGLE_TURN;
    let m2: i64 = if m < 0 {
        m + ANGLE_TURN
    } else {
        m
    };
    proof {
        let t = ANGLE_TURN as int;
        if a >= 0 {
            assert(m2 == a as int % t);
        } else {
            assert(m == -((-(a as int)) % t));
            let na = -(a as int);
            vstd::arithmetic::div_mod::lemma_fundamental_div_mod(na, t);
            let k = na / t;
            let r2 = na % t;
            vstd::arithmetic::div_mod::lemma_mod_division_less_than_divisor(na, t);
            if r2 == 0 {
                lemma_fundamental_div_mod_converse_mod(a as int, t, -k, 0);
            } else {
                lemma_fundamental_div_mod_converse_mod(a as int, t, -k - 1, t - r2);
            }
        }
    }
    if m2 >= ANGLE_HALF_TURN {
        m2 - ANGLE_TURN
    } else {
        m2
    }
}

/// A uniform-ish random integer in `[min, max]`, from one random draw.
pub fn random_in_range(min: i64, max: i64) -> (r: i64)
    requires
        min <= max,
        max - min < 0x1_0000_0000,
    ensures
        min <= r <= max,
{
    let span: u64 = (max - min + 1) as u64;
    let u: u64 = draw_u32() as u64;
    let off: i64 = (u % span) as i64;
    min + off
}

/// One step of wander noise: straight on four of six draws, a left or a
/// right turn on one of six each.
#[derive(Clone, Copy, Debug, PartialEq, Eq, Structural)]
pub enum Direction {
    Left,
    Right,
    Straight,
}

impl Direction {
    /// The direction encoded by a raw draw: of the six residues modulo
    /// six, four go straight, one turns left, one turns right.
    pub open spec fn spec_from_draw(u: int) -> Direction {
        if u % 6 < 4 {
            Direction::Straight
        } else if u % 6 == 4 {
            Direction::Left
        } else {
            Direction::Right
        }
    }

    /// Decodes a raw draw into a wander direction.
    pub fn from_draw(u: u32) -> (d: Direction)
        ensures
            d == Direction::spec_from_draw(u as int),
    {
        let m = u % 6;
        if m < 4 {
            Direction::Straight
        } else if m == 4 {
            Direction::Left
        } else {
            Direction::Right
        }
    }

    /// Draws a random wander direction.
    pub fn next() -> Direction {
        Direction::from_draw(draw_u32())
    }
}

impl Default for Direction {
    fn default() -> (d: Direction)
        ensures
            d == Direction::Straight,
    {
        Direction::Straight
    }
}

/// A velocity vector in milli-units per second.
#[derive(Clone, Copy, Debug, PartialEq, Eq, Structural)]
pub struct Velocity {
    pub x: i64,
    pub y: i64,
}

impl Velocity {
    pub fn new(x: i64, y: i64) -> (v: Velocity)
        ensures
            v.x == x,
            v.y == y,
    {
        Velocity { x, y }
    }
}

impl Default for Velocity {
    fn default() -> (v: Velocity)
        ensures
            v.x == 0,
            v.y == 0,
    {
        Velocity { x: 0, y: 0 }
    }
}

/// Whether an observer at `p1` heading `r1` with vision `v1` sees a target
/// of size `s2` at `p2`: the target must be nearer than the vision
/// distance, shrunk by the target's size, and the bearing must fall
/// strictly inside the vision cone.
pub open spec fn spec_can_see(p1: Position, r1: int, v1: Vision, s2: int, p2: Position) -> bool {
    let rel = norm_angle(crate::components::spec_point_towards(p1, p2) - r1);
    &&& crate::components::spec_distance(p1, p2) * s2 < v1.distance * SIZE_ONE as int
    &&& rel < v1.angle
    &&& rel > -v1.angle
}

/// Evaluates the can-see predicate.
pub fn can_see_position(p1: Position, r1: Rotation, v1: Vision, s2: Size, p2: Position) -> (r:
    bool)
    requires
        p1.in_limit(),
        p2.in_limit(),
        is_heading(r1.0 as int),
        0 <= s2.0 <= SIZE_LIMIT,
        0 <= v1.distance <= VISION_LIMIT,
    ensures
        r == spec_can_see(p1, r1.0 as int, v1, s2.0 as int, p2),
{
    let towards = p1.point_towards(p2);
    let angle = normalize_radians(towards.0 - r1.0);
    let distance = p1.distance(p2);
    proof {
        assert(0 <= distance as int * s2.0 as int <= 60_000_000_000int) by (nonlinear_arith)
            requires
                0 <= distance as int <= 6_000_000,
                0 <= s2.0 as int <= 10_000;
    }
    (distance * s2.0 < v1.distance * SIZE_ONE) && (angle < v1.angle) && (angle > -v1.angle)
}

/// Visibility depends only on the offset between observer and target
/// (with the observer's heading and vision and the target's size): two
/// pairs of positions with the same offset are seen alike, so translating
/// both agents together never changes what is seen.
pub proof fn lemma_can_see_translation_invariant(
    p1: Position,
    r1: int,
    v1: Vision,
    s2: int,
    p2: Position,
    q1: Position,
    q2: Position,
)
    requires
        q2.x - q1.x == p2.x - p1.x,
        q2.y - q1.y == p2.y - p1.y,
    ensures
        spec_can_see(q1, r1, v1, s2, q2) == spec_can_see(p1, r1, v1, s2, p2),
{
}

/// Proximities to the four walls of the rectangular world, as
/// `(left, right, top, bottom)`; a wall the agent faces away from
/// contributes zero.
pub open spec fn spec_walls(p: Position, h: int) -> (int, int, int, int) {
    (
        if h > ANGLE_QUARTER_TURN as int || h < -ANGLE_QUARTER_TURN as int {
            p.x - MIN_X as int
        } else {
            0
        },
        if h < ANGLE_QUARTER_TURN as int && h > -ANGLE_QUARTER_TURN as int {
            MAX_X as int - p.x
        } else {
            0
        },
        if h > 0 {
            MAX_Y as int - p.y
        } else {
            0
        },
        if h < 0 {
            p.y - MIN_Y as int
        } else {
            0
        },
    )
}

/// Computes the wall proximities `(left, right, top, bottom)`.
pub fn distance_to_walls(p: Position, r: Rotation) -> (w: (i64, i64, i64, i64))
    requires
        p.in_limit(),
    ensures
        (w.0 as int, w.1 as int, w.2 as int, w.3 as int) == spec_walls(p, r.0 as int),
{
    let left = p.x - MIN_X;
    let right = MAX_X - p.x;
    let top = MAX_Y - p.y;
    let bottom = p.y - MIN_Y;
    (
        if r.0 > ANGLE_QUARTER_TURN || r.0 < -ANGLE_QUARTER_TURN {
            left
        } else {
            0
        },
        if r.0 < ANGLE_QUARTER_TURN && r.0 > -ANGLE_QUARTER_TURN {
            right
        } else {
            0
        },
        if r.0 > 0 {
            top
        } else {
            0
        },
        if r.0 < 0 {
            bottom
        } else {
            0
        },
    )
}

/// Distance from `p` along heading `h` to the circular wall of radius
/// `RADIUS` centered on the origin, by ray-circle intersection; `None`
/// when the supporting line misses the circle.
pub open spec fn spec_circle_wall(p: Position, h: int) -> Option<int> {
    let cx = cos_fp(h);
    let cy = sin_fp(h);
    let dot = div_trunc(-(p.x * cx + p.y * cy), TRIG_ONE as int);
    let d2raw = p.x * p.x + p.y * p.y - dot * dot;
    let d2 = if d2raw < 0 {
        0
    } else {
        d2raw
    };
    if d2 > RADIUS as int * RADIUS as int {
        Option::None
    } else {
        let m = sqrt_floor(RADIUS as int * RADIUS as int - d2);
        Option::Some(if dot + m >= 0 {
            dot + m
        } else {
            -(dot + m)
        })
    }
}

/// Computes the distance to the circular wall along the current heading.
pub fn distance_to_circle_wall(p: Position, r: Rotation) -> (w: Option<i64>)
    requires
        p.in_limit(),
        is_heading(r.0 as int),
    ensures
        (w is Some) == (spec_circle_wall(p, r.0 as int) is Some),
        w matches Some(d) ==> Some(d as int) == spec_circle_wall(p, r.0 as int) && 0 <= d
            <= 5_000_000,
{
    let cx = cos_fp_exec(r.0);
    let cy = sin_fp_exec(r.0);
    proof {
        assert(-20_000_000_000int <= p.x as int * cx as int <= 20_000_000_000int
            && -20_000_000_000int <= p.y as int * cy as int <= 20_000_000_000int)
            by (nonlinear_arith)
            requires
                -2_000_000 <= p.x as int <= 2_000_000,
                -2_000_000 <= p.y as int <= 2_000_000,
                -(TRIG_ONE as int) <= cx as int <= TRIG_ONE as int,
                -(TRIG_ONE as int) <= cy as int <= TRIG_ONE as int;
        crate::math::lemma_div_trunc_bound(
            -(p.x as int * cx as int + p.y as int * cy as int),
            TRIG_ONE as int,
            4_000_000int,
        );
    }
    let n = -(p.x * cx + p.y * cy);
    let dot = div_trunc_i64(n, TRIG_ONE);
    proof {
        assert(0 <= dot as int * dot as int <= 16_000_000_000_000int) by (nonlinear_arith)
            requires
                -4_000_000 <= dot as int <= 4_000_000;
        assert(0 <= p.x as int * p.x as int <= 4_000_000_000_000int && 0 <= p.y as int
            * p.y as int <= 4_000_000_000_000int) by (nonlinear_arith)
            requires
                -2_000_000 <= p.x as int <= 2_000_000,
                -2_000_000 <= p.y as int <= 2_000_000;
    }
    let d2raw = p.x * p.x + p.y * p.y - dot * dot;
    let d2 = if d2raw < 0 {
        0
    } else {
        d2raw
    };
    if d2 > RADIUS * RADIUS {
        Option::None
    } else {
        let m = isqrt((RADIUS * RADIUS - d2) as u64) as i64;
        proof {
            lemma_sqrt_floor_unique(RADIUS as int * RADIUS as int - d2 as int, m as int);
            assert(0 <= m <= RADIUS) by (nonlinear_arith)
                requires
                    0 <= m as int,
                    m as int * m as int <= RADIUS as int * RADIUS as int,
                    RADIUS as int == 360_000;
        }
        let s = dot + m;
        Option::Some(if s >= 0 {
            s
        } else {
            -s
        })
    }
}

} // verus!

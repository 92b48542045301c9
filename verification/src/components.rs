//! The agent data model: positions, rotations, speeds, sizes, vision
//! cones, the fleeing flag, the agent kind, and the agent record itself
//! with its well-formedness invariant.

use vstd::prelude::*;

use crate::constants::{
    ANGLE_HALF_TURN, FISH_SPEED, FLEE_SPEED_CAP, FLIGHT_SPEED, POS_LIMIT, RADIUS, SHARK_SPEED,
    SHARK_VISIBLE_ANGLE, SIZE_LIMIT, SIZE_ONE, SPEED_LIMIT, TRIG_ONE, VISIBLE_ANGLE,
    VISIBLE_DISTANCE, VISION_LIMIT,
};
use crate::math::{
    angle_of, angle_of_exec, cos_fp, cos_fp_exec, div_trunc, div_trunc_i64, is_heading,
    isqrt, lemma_norm_angle_eval, lemma_sqrt_floor_unique, norm_angle, sin_fp,
    sin_fp_exec, sqrt_floor,
};
use crate::utils::{normalize_radians, random_in_range, Velocity};

verus! {

/// A point of the plane, in milli-units.
#[derive(Clone, Copy, Debug, PartialEq, Eq, Structural)]
pub struct Position {
    pub x: i64,
    pub y: i64,
}

/// The distance between two positions, rounded down.
pub open spec fn spec_distance(a: Position, b: Position) -> int {
    sqrt_floor((b.x - a.x) * (b.x - a.x) + (b.y - a.y) * (b.y - a.y))
}

/// The heading from `a` straight at `b`.
pub open spec fn spec_point_towards(a: Position, b: Position) -> int {
    angle_of(b.x - a.x, b.y - a.y)
}

/// The heading from `a` straight away from `b`.
pub open spec fn spec_point_away(a: Position, b: Position) -> int {
    norm_angle(angle_of(b.x - a.x, b.y - a.y) + ANGLE_HALF_TURN as int)
}

/// A relative turn clamped to at most `max` in either direction.
pub open spec fn clamp_turn(rel: int, max: int) -> int {
    if rel > max {
        max
    } else if rel < -max {
        -max
    } else {
        rel
    }
}

impl Position {
    /// Whether the position lies within the bound kept by integration.
    pub open spec fn in_limit(self) -> bool {
        &&& -(POS_LIMIT as int) <= self.x <= POS_LIMIT as int
        &&& -(POS_LIMIT as int) <= self.y <= POS_LIMIT as int
    }

    pub fn new(x: i64, y: i64) -> (p: Position)
        ensures
            p.x == x,
            p.y == y,
    {
        Position { x, y }
    }

    /// A random position inside the rectangular world walls.
    pub fn random_in_square() -> (p: Position)
        ensures
            p.in_limit(),
            crate::constants::MIN_X <= p.x <= crate::constants::MAX_X,
            crate::constants::MIN_Y <= p.y <= crate::constants::MAX_Y,
    {
        Position {
            x: random_in_range(crate::constants::MIN_X, crate::constants::MAX_X),
            y: random_in_range(crate::constants::MIN_Y, crate::constants::MAX_Y),
        }
    }

    /// A random position inside the circular habitat: a radius sampled as
    /// the square root of a uniform draw, a uniform angle. The truncated
    /// trigonometric scale can overshoot the rim by a hair's breadth; such
    /// a sample is pulled radially back inside, so the result always lies
    /// in the disk.
    pub fn random_in_circle() -> (p: Position)
        ensures
            p.in_limit(),
            -(RADIUS as int) <= p.x <= RADIUS as int,
            -(RADIUS as int) <= p.y <= RADIUS as int,
            p.x * p.x + p.y * p.y <= RADIUS as int * RADIUS as int,
    {
        let u = random_in_range(0, 1_000_000);
        let rr = isqrt((u * 1_000_000) as u64) as i64;
        assert(rr as int * rr as int <= 1_000_000_000_000int);
        assert(0 <= rr <= 1_000_000) by (nonlinear_arith)
            requires
                0 <= rr as int,
                rr as int * rr as int <= 1_000_000_000_000int;
        let r = (RADIUS / 1000) * (rr / 1000);
        assert(0 <= r <= RADIUS);
        let theta = random_in_range(-ANGLE_HALF_TURN, ANGLE_HALF_TURN - 1);
        let cx = cos_fp_exec(theta);
        let cy = sin_fp_exec(theta);
        proof {
            assert(-(RADIUS as int * TRIG_ONE as int) <= r as int * cx as int <= RADIUS as int
                * TRIG_ONE as int) by (nonlinear_arith)
                requires
                    0 <= r as int <= RADIUS as int,
                    -(TRIG_ONE as int) <= cx as int <= TRIG_ONE as int;
            assert(-(RADIUS as int * TRIG_ONE as int) <= r as int * cy as int <= RADIUS as int
                * TRIG_ONE as int) by (nonlinear_arith)
                requires
                    0 <= r as int <= RADIUS as int,
                    -(TRIG_ONE as int) <= cy as int <= TRIG_ONE as int;
            crate::math::lemma_div_trunc_bound(
                r as int * cx as int,
                TRIG_ONE as int,
                RADIUS as int,
            );
            crate::math::lemma_div_trunc_bound(
                r as int * cy as int,
                TRIG_ONE as int,
                RADIUS as int,
            );
        }
        let px = div_trunc_i64(r * cx, TRIG_ONE);
        let py = div_trunc_i64(r * cy, TRIG_ONE);
        clamp_to_disk(px, py)
    }

    /// The Euclidean distance to `other`, rounded down.
    pub fn distance(self, other: Position) -> (r: i64)
        requires
            self.in_limit(),
            other.in_limit(),
        ensures
            r == spec_distance(self, other),
            0 <= r <= 6_000_000,
    {
        let dx = other.x - self.x;
        let dy = other.y - self.y;
        proof {
            assert(0 <= dx as int * dx as int <= 16_000_000_000_000int && 0 <= dy as int
                * dy as int <= 16_000_000_000_000int) by (nonlinear_arith)
                requires
                    -4_000_000 <= dx as int <= 4_000_000,
                    -4_000_000 <= dy as int <= 4_000_000;
        }
        let n = (dx * dx + dy * dy) as u64;
        let r = isqrt(n);
        proof {
            lemma_sqrt_floor_unique(n as int, r as int);
            assert(r as int <= 6_000_000) by (nonlinear_arith)
                requires
                    0 <= r as int,
                    r as int * r as int <= 32_000_000_000_000int;
        }
        r as i64
    }

    /// The heading that points straight at `other`; the heading 0 when the
    /// positions coincide.
    pub fn point_towards(self, other: Position) -> (r: Rotation)
        requires
            self.in_limit(),
            other.in_limit(),
        ensures
            r.0 == spec_point_towards(self, other),
            is_heading(r.0 as int),
    {
        Rotation(angle_of_exec(other.x - self.x, other.y - self.y))
    }

    /// The heading that points straight away from `other`.
    pub fn point_away(self, other: Position) -> (r: Rotation)
        requires
            self.in_limit(),
            other.in_limit(),
        ensures
            r.0 == spec_point_away(self, other),
            is_heading(r.0 as int),
    {
        let a = angle_of_exec(other.x - self.x, other.y - self.y);
        let b = a + ANGLE_HALF_TURN;
        proof {
            lemma_norm_angle_eval(b as int);
        }
        if b >= ANGLE_HALF_TURN {
            Rotation(b - crate::constants::ANGLE_TURN)
        } else {
            Rotation(b)
        }
    }

    /// The turn towards `other` from the heading `rotation`, clamped to at
    /// most `max` in either direction.
    pub fn steer_towards(self, other: Position, rotation: Rotation, max: i64) -> (r: Rotation)
        requires
            self.in_limit(),
            other.in_limit(),
            is_heading(rotation.0 as int),
            0 <= max <= ANGLE_HALF_TURN,
        ensures
            r.0 == clamp_turn(
                norm_angle(spec_point_towards(self, other) - rotation.0),
                max as int,
            ),
            -max <= r.0 <= max,
    {
        let towards = self.point_towards(other);
        let rel = normalize_radians(towards.0 - rotation.0);
        if rel > max {
            Rotation(max)
        } else if rel < -max {
            Rotation(-max)
        } else {
            Rotation(rel)
        }
    }

    /// The turn away from `other` from the heading `rotation`, clamped to
    /// at most `max` in either direction.
    pub fn steer_away(self, other: Position, rotation: Rotation, max: i64) -> (r: Rotation)
        requires
            self.in_limit(),
            other.in_limit(),
            is_heading(rotation.0 as int),
            0 <= max <= ANGLE_HALF_TURN,
        ensures
            r.0 == clamp_turn(norm_angle(spec_point_away(self, other) - rotation.0), max as int),
            -max <= r.0 <= max,
    {
        let away = self.point_away(other);
        let rel = normalize_radians(away.0 - rotation.0);
        if rel > max {
            Rotation(max)
        } else if rel < -max {
            Rotation(-max)
        } else {
            Rotation(rel)
        }
    }
}

impl Default for Position {
    fn default() -> (p: Position)
        ensures
            p.x == 0,
            p.y == 0,
    {
        Position { x: 0, y: 0 }
    }
}

/// A direction angle in angle units, held normalized in
/// `[-ANGLE_HALF_TURN, ANGLE_HALF_TURN)` by `Rotation::new`.
#[derive(Clone, Copy, Debug, PartialEq, Eq, Structural)]
pub struct Rotation(pub i64);

impl Rotation {
    /// A rotation normalized from any angle.
    pub fn new(radians: i64) -> (r: Rotation)
        ensures
            r.0 == norm_angle(radians as int),
            is_heading(r.0 as int),
    {
        Rotation(normalize_radians(radians))
    }

    /// The unit vector of this heading, as the velocity of speed one.
    pub fn unit_vector(self) -> (v: Velocity)
        requires
            is_heading(self.0 as int),
        ensures
            v.x == div_trunc(cos_fp(self.0 as int) * SIZE_ONE as int, TRIG_ONE as int),
            v.y == div_trunc(sin_fp(self.0 as int) * SIZE_ONE as int, TRIG_ONE as int),
    {
        self.to_velocity(Speed(SIZE_ONE))
    }

    /// The velocity of the given speed along this heading.
    pub fn to_velocity(self, speed: Speed) -> (v: Velocity)
        requires
            is_heading(self.0 as int),
            0 <= speed.0 <= FLEE_SPEED_CAP,
        ensures
            v.x == div_trunc(cos_fp(self.0 as int) * speed.0, TRIG_ONE as int),
            v.y == div_trunc(sin_fp(self.0 as int) * speed.0, TRIG_ONE as int),
            -speed.0 <= v.x <= speed.0,
            -speed.0 <= v.y <= speed.0,
    {
        let cx = cos_fp_exec(self.0);
        let cy = sin_fp_exec(self.0);
        proof {
            assert(-(speed.0 as int * TRIG_ONE as int) <= cx as int * speed.0 as int <= speed.0
                as int * TRIG_ONE as int && speed.0 as int * TRIG_ONE as int
                <= 2_000_000_000_000int) by (nonlinear_arith)
                requires
                    -(TRIG_ONE as int) <= cx as int <= TRIG_ONE as int,
                    0 <= speed.0 as int <= FLEE_SPEED_CAP as int;
            assert(-(speed.0 as int * TRIG_ONE as int) <= cy as int * speed.0 as int <= speed.0
                as int * TRIG_ONE as int) by (nonlinear_arith)
                requires
                    -(TRIG_ONE as int) <= cy as int <= TRIG_ONE as int,
                    0 <= speed.0 as int;
            crate::math::lemma_div_trunc_bound(
                cx as int * speed.0 as int,
                TRIG_ONE as int,
                speed.0 as int,
            );
            crate::math::lemma_div_trunc_bound(
                cy as int * speed.0 as int,
                TRIG_ONE as int,
                speed.0 as int,
            );
        }
        let vx = div_trunc_i64(cx * speed.0, TRIG_ONE);
        let vy = div_trunc_i64(cy * speed.0, TRIG_ONE);
        Velocity { x: vx, y: vy }
    }
}

impl Default for Rotation {
    fn default() -> (r: Rotation)
        ensures
            r.0 == 0,
    {
        Rotation(0)
    }
}

/// A speed in milli-units per second.
#[derive(Clone, Copy, Debug, PartialEq, Eq, Structural)]
pub struct Speed(pub i64);

impl Default for Speed {
    fn default() -> (s: Speed)
        ensures
            s.0 == 0,
    {
        Speed(0)
    }
}

/// A size multiplier, scaled by `SIZE_ONE`.
#[derive(Clone, Copy, Debug, PartialEq, Eq, Structural)]
pub struct Size(pub i64);

impl Default for Size {
    fn default() -> (s: Size)
        ensures
            s.0 == SIZE_ONE,
    {
        Size(SIZE_ONE)
    }
}

/// Whether a fish is currently fleeing a shark.
#[derive(Clone, Copy, Debug, PartialEq, Eq, Structural)]
pub struct Fleeing(pub bool);

impl Default for Fleeing {
    fn default() -> (f: Fleeing)
        ensures
            f.0 == false,
    {
        Fleeing(false)
    }
}

/// A forward vision cone: a maximum distance in milli-units and a
/// half-angle either side of the heading.
#[derive(Clone, Copy, Debug, PartialEq, Eq, Structural)]
pub struct Vision {
    pub distance: i64,
    pub angle: i64,
}

impl Vision {
    pub fn new(distance: i64, angle: i64) -> (v: Vision)
        ensures
            v.distance == distance,
            v.angle == angle,
    {
        Vision { distance, angle }
    }

    /// The vision cone with its distance scaled by a size multiplier; the
    /// angle is unchanged.
    pub fn scaled(self, rhs: Size) -> (v: Vision)
        requires
            0 <= self.distance <= VISIBLE_DISTANCE,
            0 <= rhs.0 <= SIZE_LIMIT,
        ensures
            v.distance == (self.distance * rhs.0) / (SIZE_ONE as int),
            v.angle == self.angle,
            0 <= v.distance <= VISION_LIMIT,
    {
        proof {
            assert(0 <= self.distance as int * rhs.0 as int <= 750_000_000int)
                by (nonlinear_arith)
                requires
                    0 <= self.distance as int <= 75_000,
                    0 <= rhs.0 as int <= 10_000;
            vstd::arithmetic::div_mod::lemma_div_pos_is_pos(
                self.distance as int * rhs.0 as int,
                SIZE_ONE as int,
            );
            vstd::arithmetic::div_mod::lemma_div_is_ordered(
                self.distance as int * rhs.0 as int,
                750_000_000int,
                SIZE_ONE as int,
            );
            vstd::arithmetic::div_mod::lemma_fundamental_div_mod_converse(
                750_000_000int,
                SIZE_ONE as int,
                750_000int,
                0int,
            );
        }
        Vision { distance: (self.distance * rhs.0) / SIZE_ONE, angle: self.angle }
    }
}

impl Default for Vision {
    fn default() -> (v: Vision)
        ensures
            v.distance == VISIBLE_DISTANCE,
            v.angle == VISIBLE_ANGLE,
    {
        Vision { distance: VISIBLE_DISTANCE, angle: VISIBLE_ANGLE }
    }
}

/// What an agent is: a flocking fish or a predator shark.
#[derive(Clone, Copy, Debug, PartialEq, Eq, Structural)]
pub enum Kind {
    Fish,
    Shark,
}

/// One simulated agent.
#[derive(Clone, Copy, Debug, PartialEq, Eq, Structural)]
pub struct Agent {
    pub kind: Kind,
    pub position: Position,
    pub rotation: Rotation,
    pub speed: Speed,
    pub size: Size,
    pub vision: Vision,
    pub fleeing: Fleeing,
}

impl Agent {
    /// Well-formedness: the heading is normalized, the position bounded,
    /// size and vision within their limits, the speed positive and below
    /// its cap (a fleeing fish carries a speed that is a multiple of the
    /// flight factor), and only fish flee.
    pub open spec fn wf(self) -> bool {
        &&& is_heading(self.rotation.0 as int)
        &&& self.position.in_limit()
        &&& 1 <= self.size.0 <= SIZE_LIMIT as int
        &&& 0 <= self.vision.distance <= VISION_LIMIT as int
        &&& 0 <= self.vision.angle <= ANGLE_HALF_TURN as int
        &&& if self.fleeing.0 {
            FLIGHT_SPEED as int <= self.speed.0 <= FLEE_SPEED_CAP as int && self.speed.0 as int
                % (FLIGHT_SPEED as int) == 0
        } else {
            1 <= self.speed.0 <= SPEED_LIMIT as int
        }
        &&& self.kind is Shark ==> !self.fleeing.0
    }

    /// A calm fish with the attributes derived at spawn: speed and vision
    /// distance both scale with the size multiplier.
    pub fn new_fish(position: Position, rotation: Rotation, size: Size) -> (a: Agent)
        requires
            position.in_limit(),
            is_heading(rotation.0 as int),
            crate::constants::FISH_SIZE_MIN <= size.0 <= crate::constants::FISH_SIZE_MAX,
        ensures
            a.wf(),
            a.kind is Fish,
            a.position == position,
            a.rotation == rotation,
            a.size == size,
            a.fleeing.0 == false,
            a.speed.0 == (FISH_SPEED as int * size.0) / (SIZE_ONE as int),
            a.vision.distance == (VISIBLE_DISTANCE as int * size.0) / (SIZE_ONE as int),
            a.vision.angle == VISIBLE_ANGLE,
    {
        let speed = Speed(scale_by_size(FISH_SPEED, size));
        let d: Vision = Vision::default();
        let vision = d.scaled(size);
        proof {
            lemma_scale_range(FISH_SPEED as int, size.0 as int);
        }
        Agent {
            kind: Kind::Fish,
            position,
            rotation,
            speed,
            size,
            vision,
            fleeing: Fleeing(false),
        }
    }

    /// A shark with the attributes derived at spawn: the default position,
    /// heading, speed and vision scaled by size, and a narrowed cone.
    pub fn new_shark(size: Size) -> (a: Agent)
        requires
            crate::constants::SHARK_SIZE_MIN <= size.0 <= crate::constants::SHARK_SIZE_MAX,
        ensures
            a.wf(),
            a.kind is Shark,
            a.position == (Position { x: 0, y: 0 }),
            a.rotation.0 == 0,
            a.size == size,
            a.fleeing.0 == false,
            a.speed.0 == (SHARK_SPEED as int * size.0) / (SIZE_ONE as int),
            a.vision.distance == (VISIBLE_DISTANCE as int * size.0) / (SIZE_ONE as int),
            a.vision.angle == SHARK_VISIBLE_ANGLE,
    {
        let speed = Speed(scale_by_size(SHARK_SPEED, size));
        let d: Vision = Vision::default();
        let scaled = d.scaled(size);
        let vision = Vision { distance: scaled.distance, angle: SHARK_VISIBLE_ANGLE };
        proof {
            lemma_scale_range(SHARK_SPEED as int, size.0 as int);
        }
        Agent {
            kind: Kind::Shark,
            position: Position { x: 0, y: 0 },
            rotation: Rotation(0),
            speed,
            size,
            vision,
            fleeing: Fleeing(false),
        }
    }
}

/// Pulls a point whose coordinates are at most `RADIUS` in magnitude
/// radially back into the disk of radius `RADIUS`; a point already inside
/// the disk is returned unchanged.
fn clamp_to_disk(px: i64, py: i64) -> (p: Position)
    requires
        -RADIUS <= px <= RADIUS,
        -RADIUS <= py <= RADIUS,
    ensures
        -(RADIUS as int) <= p.x <= RADIUS as int,
        -(RADIUS as int) <= p.y <= RADIUS as int,
        p.x * p.x + p.y * p.y <= RADIUS as int * RADIUS as int,
        px * px + py * py <= RADIUS as int * RADIUS as int ==> p == (Position { x: px, y: py }),
{
    proof {
        assert(0 <= px as int * px as int <= RADIUS as int * RADIUS as int && 0 <= py as int
            * py as int <= RADIUS as int * RADIUS as int) by (nonlinear_arith)
            requires
                -(RADIUS as int) <= px as int <= RADIUS as int,
                -(RADIUS as int) <= py as int <= RADIUS as int;
    }
    let n2 = px * px + py * py;
    if n2 <= RADIUS * RADIUS {
        Position { x: px, y: py }
    } else {
        let d = isqrt(n2 as u64) as i64 + 1;
        assert(n2 < d as int * d as int);
        assert(1 <= d <= 600_000) by (nonlinear_arith)
            requires
                0 <= d as int - 1,
                (d as int - 1) * (d as int - 1) <= n2 as int,
                n2 as int <= 259_200_000_000int;
        proof {
            assert(-(RADIUS as int * RADIUS as int) <= px as int * RADIUS as int <= RADIUS as int
                * RADIUS as int && -(RADIUS as int * RADIUS as int) <= py as int * RADIUS as int
                <= RADIUS as int * RADIUS as int) by (nonlinear_arith)
                requires
                    -(RADIUS as int) <= px as int <= RADIUS as int,
                    -(RADIUS as int) <= py as int <= RADIUS as int,
                    0 < RADIUS as int;
        }
        let qx = div_trunc_i64(px * RADIUS, d);
        let qy = div_trunc_i64(py * RADIUS, d);
        proof {
            lemma_clamp_in_disk(px as int, py as int, d as int, qx as int, qy as int);
        }
        Position { x: qx, y: qy }
    }
}

/// Dividing both scaled coordinates of a point by a strict upper bound on
/// its distance from the origin lands the point inside the disk.
proof fn lemma_clamp_in_disk(px: int, py: int, d: int, qx: int, qy: int)
    requires
        0 < d,
        px * px + py * py < d * d,
        qx == div_trunc(px * RADIUS as int, d),
        qy == div_trunc(py * RADIUS as int, d),
    ensures
        qx * qx + qy * qy <= RADIUS as int * RADIUS as int,
        -(RADIUS as int) <= qx <= RADIUS as int,
        -(RADIUS as int) <= qy <= RADIUS as int,
{
    let r = RADIUS as int;
    let ax = if px >= 0 { px } else { -px };
    let ay = if py >= 0 { py } else { -py };
    let mx = (ax * r) / d;
    let my = (ay * r) / d;
    vstd::arithmetic::div_mod::lemma_div_pos_is_pos(ax * r, d);
    vstd::arithmetic::div_mod::lemma_div_pos_is_pos(ay * r, d);
    vstd::arithmetic::div_mod::lemma_fundamental_div_mod(ax * r, d);
    vstd::arithmetic::div_mod::lemma_fundamental_div_mod(ay * r, d);
    vstd::arithmetic::div_mod::lemma_mod_division_less_than_divisor(ax * r, d);
    vstd::arithmetic::div_mod::lemma_mod_division_less_than_divisor(ay * r, d);
    assert(d * mx <= ax * r && d * my <= ay * r);
    assert(qx == mx || qx == -mx);
    assert(qy == my || qy == -my);
    assert(qx * qx == mx * mx && qy * qy == my * my) by (nonlinear_arith)
        requires
            qx == mx || qx == -mx,
            qy == my || qy == -my;
    assert(mx * mx * (d * d) <= (ax * ax) * (r * r)) by (nonlinear_arith)
        requires
            0 <= mx,
            0 < d,
            0 <= ax,
            0 <= r,
            d * mx <= ax * r;
    assert(my * my * (d * d) <= (ay * ay) * (r * r)) by (nonlinear_arith)
        requires
            0 <= my,
            0 < d,
            0 <= ay,
            0 <= r,
            d * my <= ay * r;
    assert(ax * ax == px * px && ay * ay == py * py) by (nonlinear_arith)
        requires
            ax == px || ax == -px,
            ay == py || ay == -py;
    assert((mx * mx + my * my) * (d * d) <= (px * px + py * py) * (r * r)) by (nonlinear_arith)
        requires
            mx * mx * (d * d) <= (px * px) * (r * r),
            my * my * (d * d) <= (py * py) * (r * r);
    assert((px * px + py * py) * (r * r) < (d * d) * (r * r)) by (nonlinear_arith)
        requires
            px * px + py * py < d * d,
            0 < r;
    assert(mx * mx + my * my <= r * r) by (nonlinear_arith)
        requires
            (mx * mx + my * my) * (d * d) < (d * d) * (r * r),
            0 < d;
    assert(mx <= r && my <= r) by (nonlinear_arith)
        requires
            0 <= mx,
            0 <= my,
            mx * mx + my * my <= r * r,
            0 < r;
}

/// Scales a base attribute by a size multiplier.
fn scale_by_size(base: i64, size: Size) -> (r: i64)
    requires
        0 <= base <= 100_000,
        0 <= size.0 <= SIZE_LIMIT,
    ensures
        r == (base as int * size.0 as int) / (SIZE_ONE as int),
{
    proof {
        assert(0 <= base as int * size.0 as int <= 1_000_000_000int) by (nonlinear_arith)
            requires
                0 <= base as int <= 100_000,
                0 <= size.0 as int <= 10_000;
        vstd::arithmetic::div_mod::lemma_div_pos_is_pos(
            base as int * size.0 as int,
            SIZE_ONE as int,
        );
    }
    (base * size.0) / SIZE_ONE
}

/// A base speed scaled by a spawn size stays within the calm speed range.
proof fn lemma_scale_range(base: int, size: int)
    requires
        750 <= base <= 1250,
        500 <= size <= 6000,
    ensures
        1 <= (base * size) / (SIZE_ONE as int) <= SPEED_LIMIT as int,
{
    assert(375_000 <= base * size <= 7_500_000) by (nonlinear_arith)
        requires
            750 <= base <= 1250,
            500 <= size <= 6000;
    vstd::arithmetic::div_mod::lemma_div_is_ordered(375_000int, base * size, SIZE_ONE as int);
    vstd::arithmetic::div_mod::lemma_div_is_ordered(base * size, 7_500_000int, SIZE_ONE as int);
    vstd::arithmetic::div_mod::lemma_fundamental_div_mod_converse(
        375_000int,
        SIZE_ONE as int,
        375int,
        0int,
    );
    vstd::arithmetic::div_mod::lemma_fundamental_div_mod_converse(
        7_500_000int,
        SIZE_ONE as int,
        7_500int,
        0int,
    );
}

} // verus!

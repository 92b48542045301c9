//! Fixed-point arithmetic for the simulation: angle normalization,
//! truncating division, integer square roots, and trigonometry (sine,
//! cosine and a two-argument arctangent) over scaled integers.
//!
//! Angles are in arc-minutes (`ANGLE_HALF_TURN` units per half turn);
//! sine and cosine are scaled by `TRIG_ONE`.

use vstd::prelude::*;
use vstd::arithmetic::div_mod::*;
use vstd::arithmetic::mul::*;

use crate::constants::{
    ANGLE_HALF_TURN, ANGLE_TURN, ANGLE_QUARTER_TURN, ANGLE_EIGHTH_TURN, TRIG_ONE, ATAN_CURVE,
};

verus! {

/// The angle `a` reduced into `[-ANGLE_HALF_TURN, ANGLE_HALF_TURN)`,
/// congruent to `a` modulo a full turn.
pub open spec fn norm_angle(a: int) -> int {
    let m = a % (ANGLE_TURN as int);
    if m >= ANGLE_HALF_TURN as int {
        m - ANGLE_TURN as int
    } else {
        m
    }
}

/// Whether `a` is a normalized heading.
pub open spec fn is_heading(a: int) -> bool {
    -(ANGLE_HALF_TURN as int) <= a < ANGLE_HALF_TURN as int
}

/// Normalization lands in `[-ANGLE_HALF_TURN, ANGLE_HALF_TURN)`.
pub proof fn lemma_norm_angle_range(a: int)
    ensures
        is_heading(norm_angle(a)),
{
    lemma_mod_division_less_than_divisor(a, ANGLE_TURN as int);
}

/// Normalization is the identity on normalized headings; in particular it
/// is idempotent.
pub proof fn lemma_norm_angle_identity(a: int)
    requires
        is_heading(a),
    ensures
        norm_angle(a) == a,
{
    if a >= 0 {
        lemma_small_mod(a as nat, ANGLE_TURN as nat);
    } else {
        lemma_fundamental_div_mod_converse_mod(a, ANGLE_TURN as int, -1, a + ANGLE_TURN as int);
    }
}

/// Normalization is idempotent: normalizing a normalized angle changes
/// nothing.
pub proof fn lemma_norm_angle_idempotent(a: int)
    ensures
        norm_angle(norm_angle(a)) == norm_angle(a),
{
    lemma_norm_angle_range(a);
    lemma_norm_angle_identity(norm_angle(a));
}

/// Adding a full turn does not change the normalized angle.
pub proof fn lemma_norm_angle_turn(a: int)
    ensures
        norm_angle(a + ANGLE_TURN as int) == norm_angle(a),
        norm_angle(a - ANGLE_TURN as int) == norm_angle(a),
{
    lemma_mod_add_multiples_vanish(a, ANGLE_TURN as int);
    lemma_mod_sub_multiples_vanish(a, ANGLE_TURN as int);
}

/// Truncating (round-toward-zero) division, the semantics of `/` on the
/// machine integers; `b` must be positive.
pub open spec fn div_trunc(a: int, b: int) -> int {
    if a >= 0 {
        a / b
    } else {
        -((-a) / b)
    }
}

/// Truncating division of `i64` values by a positive divisor.
pub fn div_trunc_i64(a: i64, b: i64) -> (r: i64)
    requires
        0 < b,
        i64::MIN < a,
    ensures
        r == div_trunc(a as int, b as int),
        a >= 0 ==> 0 <= r <= a,
        a < 0 ==> a <= r <= 0,
{
    if a >= 0 {
        proof {
            lemma_div_pos_is_pos(a as int, b as int);
            lemma_div_nonincreasing(a as int, b as int);
        }
        a / b
    } else {
        proof {
            lemma_div_pos_is_pos(-(a as int), b as int);
            lemma_div_nonincreasing(-(a as int), b as int);
        }
        -((-a) / b)
    }
}

/// Truncating division shrinks a symmetric bound: if `|a| <= q * b` then
/// `|div_trunc(a, b)| <= q`.
pub proof fn lemma_div_trunc_bound(a: int, b: int, q: int)
    requires
        0 < b,
        0 <= q,
        -(q * b) <= a <= q * b,
    ensures
        -q <= div_trunc(a, b) <= q,
{
    if a >= 0 {
        lemma_div_pos_is_pos(a, b);
        lemma_div_is_ordered(a, q * b, b);
        lemma_div_multiples_vanish(q, b);
        assert(b * q == q * b) by (nonlinear_arith);
    } else {
        lemma_div_pos_is_pos(-a, b);
        lemma_div_is_ordered(-a, q * b, b);
        lemma_div_multiples_vanish(q, b);
        assert(b * q == q * b) by (nonlinear_arith);
    }
}

/// Whether `r` is the integer square root of `n`, rounded down.
pub open spec fn is_sqrt_floor(n: int, r: int) -> bool {
    &&& 0 <= r
    &&& r * r <= n
    &&& n < (r + 1) * (r + 1)
}

/// The integer square root of `n`, rounded down.
pub open spec fn sqrt_floor(n: int) -> int {
    choose|r: int| is_sqrt_floor(n, r)
}

/// The integer square root is unique.
pub proof fn lemma_sqrt_floor_unique(n: int, r: int)
    requires
        is_sqrt_floor(n, r),
    ensures
        r == sqrt_floor(n),
{
    let s = sqrt_floor(n);
    assert(is_sqrt_floor(n, s));
    if r < s {
        assert((r + 1) * (r + 1) <= s * s) by (nonlinear_arith)
            requires 0 <= r, r < s;
    }
    if s < r {
        assert((s + 1) * (s + 1) <= r * r) by (nonlinear_arith)
            requires 0 <= s, s < r;
    }
}

/// Exact squares have exact roots.
pub proof fn lemma_sqrt_floor_square(r: int)
    requires
        0 <= r,
    ensures
        sqrt_floor(r * r) == r,
{
    assert((r + 1) * (r + 1) > r * r) by (nonlinear_arith)
        requires 0 <= r;
    lemma_sqrt_floor_unique(r * r, r);
}

/// The integer square root of `n`, rounded down, by bisection.
pub fn isqrt(n: u64) -> (r: u64)
    requires
        n < 0x4000_0000_0000_0000,
    ensures
        r == sqrt_floor(n as int),
        r * r <= n < (r + 1) * (r + 1),
        r < 0x8000_0000,
{
    let mut lo: u64 = 0;
    let mut hi: u64 = 0x8000_0000;
    assert((hi * hi) as int == 0x4000_0000_0000_0000int) by (nonlinear_arith)
        requires hi == 0x8000_0000u64;
    while lo + 1 < hi
        invariant
            lo < hi <= 0x8000_0000,
            (lo * lo) as int <= n as int,
            (n as int) < (hi * hi) as int,
        decreases hi - lo,
    {
        let mid = lo + (hi - lo) / 2;
        assert(lo < mid < hi);
        assert(mid * mid <= 0x8000_0000u64 * 0x8000_0000u64) by (nonlinear_arith)
            requires mid <= 0x8000_0000u64;
        if mid * mid <= n {
            lo = mid;
        } else {
            hi = mid;
        }
    }
    proof {
        lemma_sqrt_floor_unique(n as int, lo as int);
    }
    lo
}

/// Bhaskara's rational approximation of the sine on `[0, ANGLE_HALF_TURN]`,
/// scaled by `TRIG_ONE`. Exact at 0, a quarter turn, and a half turn.
pub open spec fn sin_half(x: int) -> int {
    let y = x * (ANGLE_HALF_TURN as int - x);
    (16 * y * TRIG_ONE as int) / (
        5 * ANGLE_HALF_TURN as int * ANGLE_HALF_TURN as int - 4 * y
    )
}

/// Fixed-point sine of a normalized heading, scaled by `TRIG_ONE`.
pub open spec fn sin_fp(a: int) -> int {
    if a >= 0 {
        sin_half(a)
    } else {
        -sin_half(-a)
    }
}

/// Fixed-point cosine of a normalized heading, scaled by `TRIG_ONE`.
pub open spec fn cos_fp(a: int) -> int {
    sin_fp(norm_angle(a + ANGLE_QUARTER_TURN as int))
}

/// The sine approximation stays within `[0, TRIG_ONE]` on the first half
/// turn.
pub proof fn lemma_sin_half_range(x: int)
    requires
        0 <= x <= ANGLE_HALF_TURN as int,
    ensures
        0 <= sin_half(x) <= TRIG_ONE as int,
{
    let h = ANGLE_HALF_TURN as int;
    let s = TRIG_ONE as int;
    let y = x * (h - x);
    let num = 16 * y * s;
    let den = 5 * h * h - 4 * y;
    assert(0 <= y && 4 * y <= h * h) by (nonlinear_arith)
        requires
            0 <= x <= h,
            y == x * (h - x);
    assert(num <= s * den) by (nonlinear_arith)
        requires 4 * y <= h * h, num == 16 * y * s, den == 5 * h * h - 4 * y, s == TRIG_ONE as int, h == ANGLE_HALF_TURN as int;
    lemma_div_pos_is_pos(num, den);
    lemma_div_is_ordered(num, s * den, den);
    lemma_div_multiples_vanish(s, den);
    assert(den * s == s * den) by (nonlinear_arith);
}

/// The sine of a normalized heading stays within `[-TRIG_ONE, TRIG_ONE]`.
pub proof fn lemma_sin_fp_range(a: int)
    requires
        is_heading(a),
    ensures
        -(TRIG_ONE as int) <= sin_fp(a) <= TRIG_ONE as int,
{
    if a >= 0 {
        lemma_sin_half_range(a);
    } else {
        lemma_sin_half_range(-a);
    }
}

/// The cosine of a normalized heading stays within `[-TRIG_ONE, TRIG_ONE]`.
pub proof fn lemma_cos_fp_range(a: int)
    requires
        is_heading(a),
    ensures
        -(TRIG_ONE as int) <= cos_fp(a) <= TRIG_ONE as int,
{
    lemma_norm_angle_range(a + ANGLE_QUARTER_TURN as int);
    lemma_sin_fp_range(norm_angle(a + ANGLE_QUARTER_TURN as int));
}

/// Computes `sin_half` on the first half turn.
fn sin_half_exec(x: i64) -> (r: i64)
    requires
        0 <= x <= ANGLE_HALF_TURN as int,
    ensures
        r == sin_half(x as int),
        0 <= r <= TRIG_ONE as int,
{
    proof {
        lemma_sin_half_range(x as int);
        assert(0 <= x as int * (ANGLE_HALF_TURN as int - x as int)
            <= ANGLE_HALF_TURN as int * ANGLE_HALF_TURN as int) by (nonlinear_arith)
            requires 0 <= x as int <= ANGLE_HALF_TURN as int;
    }
    let y: i64 = x * (ANGLE_HALF_TURN - x);
    let num: i64 = 16 * y * TRIG_ONE;
    let den: i64 = 5 * ANGLE_HALF_TURN * ANGLE_HALF_TURN - 4 * y;
    num / den
}

/// Computes the fixed-point sine of a normalized heading.
pub fn sin_fp_exec(a: i64) -> (r: i64)
    requires
        is_heading(a as int),
    ensures
        r == sin_fp(a as int),
        -(TRIG_ONE as int) <= r <= TRIG_ONE as int,
{
    if a >= 0 {
        sin_half_exec(a)
    } else {
        -sin_half_exec(-a)
    }
}

/// Computes the fixed-point cosine of a normalized heading.
pub fn cos_fp_exec(a: i64) -> (r: i64)
    requires
        is_heading(a as int),
    ensures
        r == cos_fp(a as int),
        -(TRIG_ONE as int) <= r <= TRIG_ONE as int,
{
    let b: i64 = a + ANGLE_QUARTER_TURN;
    let bn: i64 = if b >= ANGLE_HALF_TURN {
        b - ANGLE_TURN
    } else {
        b
    };
    proof {
        if b >= ANGLE_HALF_TURN as int {
            lemma_norm_angle_turn(bn as int);
            lemma_norm_angle_identity(bn as int);
        } else {
            lemma_norm_angle_identity(b as int);
        }
    }
    sin_fp_exec(bn)
}

/// Approximate arctangent of `n / d` for `0 <= n <= d`, in angle units,
/// within `[0, ANGLE_EIGHTH_TURN]`. Exact at a ratio of 0 and of 1.
pub open spec fn atan_frac(n: int, d: int) -> int {
    let s = TRIG_ONE as int;
    let z = (n * s) / d;
    (ANGLE_EIGHTH_TURN as int * z * s + ATAN_CURVE as int * z * (s - z)) / (s * s)
}

/// The arctangent approximation stays within `[0, ANGLE_EIGHTH_TURN]`.
pub proof fn lemma_atan_frac_range(n: int, d: int)
    requires
        0 <= n <= d,
        0 < d,
    ensures
        0 <= atan_frac(n, d) <= ANGLE_EIGHTH_TURN as int,
{
    let s = TRIG_ONE as int;
    let e = ANGLE_EIGHTH_TURN as int;
    let c = ATAN_CURVE as int;
    let z = (n * s) / d;
    lemma_div_pos_is_pos(n * s, d);
    assert(n * s <= d * s) by (nonlinear_arith)
        requires n <= d, 0 < s;
    lemma_div_is_ordered(n * s, d * s, d);
    lemma_div_multiples_vanish(s, d);
    assert(0 <= z <= s);
    let num = e * z * s + c * z * (s - z);
    assert(0 <= num && num <= e * (s * s)) by (nonlinear_arith)
        requires
            0 <= z <= s,
            num == e * z * s + c * z * (s - z),
            e == 2700,
            c == 938,
            s == 10000;
    lemma_div_pos_is_pos(num, s * s);
    lemma_div_is_ordered(num, e * (s * s), s * s);
    lemma_div_multiples_vanish(e, s * s);
    assert((s * s) * e == e * (s * s)) by (nonlinear_arith);
}

/// Computes `atan_frac`.
fn atan_frac_exec(n: i64, d: i64) -> (r: i64)
    requires
        0 <= n <= d,
        0 < d <= 100_000_000,
    ensures
        r == atan_frac(n as int, d as int),
        0 <= r <= ANGLE_EIGHTH_TURN as int,
{
    proof {
        lemma_atan_frac_range(n as int, d as int);
        lemma_div_pos_is_pos(n as int * TRIG_ONE as int, d as int);
        assert(n as int * TRIG_ONE as int <= d as int * TRIG_ONE as int) by (nonlinear_arith)
            requires n <= d, 0 < TRIG_ONE as int;
        lemma_div_is_ordered(n as int * TRIG_ONE as int, d as int * TRIG_ONE as int, d as int);
        lemma_div_multiples_vanish(TRIG_ONE as int, d as int);
    }
    let z: i64 = (n * TRIG_ONE) / d;
    assert(0 <= z <= TRIG_ONE as int);
    let num: i64 = ANGLE_EIGHTH_TURN * z * TRIG_ONE + ATAN_CURVE * z * (TRIG_ONE - z);
    num / (TRIG_ONE * TRIG_ONE)
}

/// First-quadrant angle of the vector `(mx, my)` of nonnegative
/// components, in `[0, ANGLE_QUARTER_TURN]`.
pub open spec fn octant_angle(mx: int, my: int) -> int {
    if my <= mx {
        atan_frac(my, mx)
    } else {
        ANGLE_QUARTER_TURN as int - atan_frac(mx, my)
    }
}

/// The angle of the vector `(dx, dy)`, normalized; the angle of the zero
/// vector is 0.
pub open spec fn angle_of(dx: int, dy: int) -> int {
    if dx == 0 && dy == 0 {
        0
    } else {
        let q = octant_angle(if dx >= 0 { dx } else { -dx }, if dy >= 0 { dy } else { -dy });
        if dx >= 0 && dy >= 0 {
            q
        } else if dx < 0 && dy >= 0 {
            norm_angle(ANGLE_HALF_TURN as int - q)
        } else if dx >= 0 && dy < 0 {
            -q
        } else {
            q - ANGLE_HALF_TURN as int
        }
    }
}

/// The first-quadrant angle stays within `[0, ANGLE_QUARTER_TURN]`.
pub proof fn lemma_octant_angle_range(mx: int, my: int)
    requires
        0 <= mx,
        0 <= my,
        mx != 0 || my != 0,
    ensures
        0 <= octant_angle(mx, my) <= ANGLE_QUARTER_TURN as int,
{
    if my <= mx {
        lemma_atan_frac_range(my, mx);
    } else {
        lemma_atan_frac_range(mx, my);
    }
}

/// The angle of any vector is a normalized heading.
pub proof fn lemma_angle_of_range(dx: int, dy: int)
    ensures
        is_heading(angle_of(dx, dy)),
{
    if dx == 0 && dy == 0 {
    } else {
        let mx = if dx >= 0 { dx } else { -dx };
        let my = if dy >= 0 { dy } else { -dy };
        lemma_octant_angle_range(mx, my);
        let q = octant_angle(mx, my);
        if dx < 0 && dy >= 0 {
            lemma_norm_angle_range(ANGLE_HALF_TURN as int - q);
        }
    }
}

/// Computes the angle of the vector `(dx, dy)`.
pub fn angle_of_exec(dx: i64, dy: i64) -> (r: i64)
    requires
        -8_000_000 <= dx <= 8_000_000,
        -8_000_000 <= dy <= 8_000_000,
    ensures
        r == angle_of(dx as int, dy as int),
        is_heading(r as int),
{
    proof {
        lemma_angle_of_range(dx as int, dy as int);
    }
    if dx == 0 && dy == 0 {
        0
    } else {
        let mx: i64 = if dx >= 0 { dx } else { -dx };
        let my: i64 = if dy >= 0 { dy } else { -dy };
        let q: i64 = if my <= mx {
            atan_frac_exec(my, mx)
        } else {
            ANGLE_QUARTER_TURN - atan_frac_exec(mx, my)
        };
        if dx >= 0 && dy >= 0 {
            q
        } else if dx < 0 && dy >= 0 {
            let v: i64 = ANGLE_HALF_TURN - q;
            proof {
                lemma_norm_angle_eval(v as int);
            }
            if v >= ANGLE_HALF_TURN {
                v - ANGLE_TURN
            } else {
                v
            }
        } else if dx >= 0 && dy < 0 {
            -q
        } else {
            q - ANGLE_HALF_TURN
        }
    }
}

/// The arctangent approximation of a zero numerator is zero.
pub proof fn lemma_atan_frac_zero(d: int)
    requires
        0 < d,
    ensures
        atan_frac(0, d) == 0,
{
    let s = TRIG_ONE as int;
    lemma_div_of0(d);
    assert((0 * s) / d == 0);
    lemma_div_of0(s * s);
}

/// Evaluates normalization on one whole turn of angles.
pub proof fn lemma_norm_angle_eval(a: int)
    requires
        0 <= a < ANGLE_TURN as int,
    ensures
        norm_angle(a) == if a >= ANGLE_HALF_TURN as int {
            a - ANGLE_TURN as int
        } else {
            a
        },
{
    lemma_small_mod(a as nat, ANGLE_TURN as nat);
}

/// Negating a nonzero vector adds a half turn to its angle.
pub proof fn lemma_angle_of_opposite(dx: int, dy: int)
    requires
        dx != 0 || dy != 0,
    ensures
        angle_of(-dx, -dy) == norm_angle(angle_of(dx, dy) + ANGLE_HALF_TURN as int),
{
    let h = ANGLE_HALF_TURN as int;
    let mx = if dx >= 0 { dx } else { -dx };
    let my = if dy >= 0 { dy } else { -dy };
    lemma_octant_angle_range(mx, my);
    let q = octant_angle(mx, my);
    if dx > 0 && dy > 0 {
        lemma_norm_angle_eval(q + h);
    } else if dx > 0 && dy == 0 {
        lemma_atan_frac_zero(mx);
        assert(q == 0);
    } else if dx == 0 && dy > 0 {
        lemma_atan_frac_zero(my);
        assert(q == ANGLE_QUARTER_TURN as int);
        lemma_norm_angle_eval(q + h);
    } else if dx < 0 && dy > 0 {
        lemma_norm_angle_eval(h - q);
        if q > 0 {
            lemma_norm_angle_eval(2 * h - q);
        } else {
            lemma_norm_angle_eval(0);
        }
    } else if dx < 0 && dy == 0 {
        lemma_atan_frac_zero(mx);
        assert(q == 0);
        lemma_norm_angle_eval(h);
        lemma_norm_angle_eval(0);
    } else if dx > 0 && dy < 0 {
    } else if dx == 0 && dy < 0 {
        lemma_atan_frac_zero(my);
        assert(q == ANGLE_QUARTER_TURN as int);
        lemma_norm_angle_eval(h - q);
    } else {
        lemma_norm_angle_eval(q);
    }
}

} // verus!


use shoal::components::{Rotation, Speed};
use shoal::math::{cos_fp_exec, isqrt, sin_fp_exec};
use shoal::systems::wander::wander_step;
use shoal::utils::{normalize_radians, Direction};

#[test]
fn normalize_lands_in_half_open_range() {
    assert_eq!(normalize_radians(0), 0);
    assert_eq!(normalize_radians(10799), 10799);
    assert_eq!(normalize_radians(10800), -10800);
    assert_eq!(normalize_radians(21600), 0);
    assert_eq!(normalize_radians(-21600), 0);
    assert_eq!(normalize_radians(-10800), -10800);
    assert_eq!(normalize_radians(-10801), 10799);
    assert_eq!(normalize_radians(32400), -10800);
    assert_eq!(normalize_radians(1_000_000), 6400);
    assert_eq!(normalize_radians(-1_000_000), -6400);
}

#[test]
fn normalize_is_idempotent() {
    for a in [0i64, 5, -5, 10800, -10800, 123_456, -654_321, 10799, -10801] {
        let once = normalize_radians(a);
        assert_eq!(normalize_radians(once), once);
        assert!(-10800 <= once && once < 10800);
    }
}

#[test]
fn rotation_new_normalizes() {
    assert_eq!(Rotation::new(10800).0, -10800);
    assert_eq!(Rotation::new(-21600).0, 0);
    assert_eq!(Rotation::new(2700).0, 2700);
}

#[test]
fn sine_is_exact_at_cardinal_angles() {
    assert_eq!(sin_fp_exec(0), 0);
    assert_eq!(sin_fp_exec(5400), 10000);
    assert_eq!(sin_fp_exec(-5400), -10000);
    assert_eq!(cos_fp_exec(0), 10000);
    assert_eq!(cos_fp_exec(5400), 0);
    assert_eq!(cos_fp_exec(-10800), -10000);
}

#[test]
fn sine_of_thirty_degrees_is_exactly_half() {
    // Bhaskara's approximation is exact at a sixth of a half turn.
    assert_eq!(sin_fp_exec(1800), 5000);
    assert_eq!(cos_fp_exec(-3600), 5000);
}

#[test]
fn integer_square_root_rounds_down() {
    assert_eq!(isqrt(0), 0);
    assert_eq!(isqrt(1), 1);
    assert_eq!(isqrt(24), 4);
    assert_eq!(isqrt(25), 5);
    assert_eq!(isqrt(500_000_000), 22360);
    assert_eq!(isqrt(129_600_000_000), 360_000);
}

#[test]
fn direction_from_draw_splits_four_one_one() {
    assert_eq!(Direction::from_draw(0), Direction::Straight);
    assert_eq!(Direction::from_draw(1), Direction::Straight);
    assert_eq!(Direction::from_draw(2), Direction::Straight);
    assert_eq!(Direction::from_draw(3), Direction::Straight);
    assert_eq!(Direction::from_draw(4), Direction::Left);
    assert_eq!(Direction::from_draw(5), Direction::Right);
    assert_eq!(Direction::from_draw(10), Direction::Left);
    assert_eq!(Direction::from_draw(17), Direction::Right);
    assert_eq!(Direction::from_draw(600), Direction::Straight);
}

#[test]
fn wander_step_turns_by_the_noise_amount() {
    assert_eq!(wander_step(Rotation(100), Direction::Left, 240).0, 340);
    assert_eq!(wander_step(Rotation(100), Direction::Right, 240).0, -140);
    assert_eq!(wander_step(Rotation(100), Direction::Straight, 240).0, 100);
    // turns re-normalize across the seam at a half turn
    assert_eq!(wander_step(Rotation(10700), Direction::Left, 240).0, -10660);
    assert_eq!(wander_step(Rotation(-10700), Direction::Right, 240).0, 10660);
}

#[test]
fn to_velocity_scales_the_unit_vector_by_speed() {
    let v = Rotation(0).to_velocity(Speed(1250));
    assert_eq!(v.x, 1250);
    assert_eq!(v.y, 0);
    let u = Rotation(0).unit_vector();
    assert_eq!(u.x, 1000);
    assert_eq!(u.y, 0);
    let d = Rotation(2700).to_velocity(Speed(1250));
    assert_eq!(d.x, 882);
    assert_eq!(d.y, 882);
}

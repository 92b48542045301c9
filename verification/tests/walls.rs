use shoal::components::{Agent, Position, Rotation, Size, Vision};
use shoal::systems::avoid_walls::{avoid_circle_walls, avoid_square_walls, turn_power};
use shoal::utils::{distance_to_circle_wall, distance_to_walls};

fn swimmer(x: i64, y: i64, heading: i64) -> Agent {
    let mut a = Agent::new_fish(Position::new(x, y), Rotation::new(heading), Size(1000));
    a.vision = Vision { distance: 75_000, angle: 8100 };
    a
}

#[test]
fn wall_proximities_follow_the_heading_quadrant() {
    // facing northeast: the right and top walls are ahead
    let w = distance_to_walls(Position::new(600_000, 300_000), Rotation(2700));
    assert_eq!(w, (0, 40_000, 60_000, 0));
    // facing due west with a negative heading: the left wall is ahead,
    // and the negative heading also counts the bottom wall
    let w = distance_to_walls(Position::new(-600_000, 0), Rotation(-10800));
    assert_eq!(w, (40_000, 0, 0, 360_000));
    // facing south: the bottom wall is ahead
    let w = distance_to_walls(Position::new(0, -300_000), Rotation(-5000));
    assert_eq!(w.3, 60_000);
    assert_eq!(w.2, 0);
}

#[test]
fn turn_power_scales_and_floors() {
    // far walls fall back to twice the avoidance increment
    assert_eq!(turn_power(75_000, 50_000), 360);
    // near walls scale the increment by vision over proximity
    assert_eq!(turn_power(75_000, 10_000), 1350);
    assert_eq!(turn_power(75_000, 0), 360);
}

#[test]
fn circle_wall_distance_from_center_is_the_radius() {
    for h in [0i64, 1234, -5400, 10799, -10800] {
        let d = distance_to_circle_wall(Position::new(0, 0), Rotation(h));
        assert_eq!(d, Some(360_000));
    }
}

#[test]
fn center_agent_gets_no_circle_correction() {
    // the wall is a whole radius away in every direction, farther than
    // any realistic vision distance
    for h in [0i64, 2700, -9000] {
        let mut agents = vec![swimmer(0, 0, h)];
        avoid_circle_walls(&mut agents);
        assert_eq!(agents[0].rotation.0, h);
    }
}

#[test]
fn near_circle_wall_turns_the_agent() {
    let d = distance_to_circle_wall(Position::new(300_000, 0), Rotation(0));
    assert_eq!(d, Some(60_000));
    let mut agents = vec![swimmer(300_000, 0, 0)];
    avoid_circle_walls(&mut agents);
    // both probes clear equally, so the agent turns right by the floored
    // power
    assert_eq!(agents[0].rotation.0, -360);
}

#[test]
fn equal_turn_forces_break_the_tie_clockwise() {
    // equidistant from the right and top walls, facing northeast: the
    // right wall urges a left turn and the top wall a right turn, with
    // exactly equal force; the tie goes to the right (clockwise) turn
    let mut agents = vec![swimmer(590_000, 310_000, 2700)];
    avoid_square_walls(&mut agents);
    assert_eq!(agents[0].rotation.0, 2700 - 360);
}

#[test]
fn far_from_every_wall_no_square_correction() {
    let mut agents = vec![swimmer(0, 0, 2700)];
    avoid_square_walls(&mut agents);
    assert_eq!(agents[0].rotation.0, 2700);
}

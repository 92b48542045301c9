use shoal::components::{Agent, Position, Rotation, Size, Vision};
use shoal::systems::sac::visibility_graph;
use shoal::utils::can_see_position;

fn fish_at(x: i64, y: i64, heading: i64) -> Agent {
    Agent::new_fish(Position::new(x, y), Rotation::new(heading), Size(1000))
}

#[test]
fn distance_is_euclidean_rounded_down() {
    assert_eq!(Position::new(0, 0).distance(Position::new(3000, 4000)), 5000);
    assert_eq!(Position::new(0, 0).distance(Position::new(0, 0)), 0);
    assert_eq!(Position::new(-1000, 0).distance(Position::new(1000, 0)), 2000);
    assert_eq!(Position::new(0, 0).distance(Position::new(1000, 1000)), 1414);
}

#[test]
fn bearings_point_at_and_away() {
    assert_eq!(Position::new(0, 0).point_towards(Position::new(2000, 1000)).0, 1584);
    assert_eq!(Position::new(0, 0).point_away(Position::new(2000, 1000)).0, -9216);
    assert_eq!(Position::new(0, 0).point_towards(Position::new(1000, 0)).0, 0);
    assert_eq!(Position::new(0, 0).point_towards(Position::new(0, 1000)).0, 5400);
    assert_eq!(Position::new(0, 0).point_towards(Position::new(-1000, 0)).0, -10800);
    assert_eq!(Position::new(0, 0).point_towards(Position::new(0, -1000)).0, -5400);
    // the bearing of the zero vector is zero, and away is the seam angle
    assert_eq!(Position::new(5, 5).point_towards(Position::new(5, 5)).0, 0);
    assert_eq!(Position::new(5, 5).point_away(Position::new(5, 5)).0, -10800);
}

#[test]
fn steering_clamps_to_the_turn_limit() {
    let origin = Position::new(0, 0);
    let target = Position::new(2000, 1000);
    assert_eq!(origin.steer_towards(target, Rotation(0), 120).0, 120);
    assert_eq!(origin.steer_away(target, Rotation(0), 120).0, -120);
    assert_eq!(origin.steer_towards(target, Rotation(1500), 120).0, 84);
}

#[test]
fn can_see_respects_distance_and_cone() {
    let v = Vision { distance: 75_000, angle: 8100 };
    let p = Position::new(0, 0);
    // close and ahead: seen
    assert!(can_see_position(p, Rotation(0), v, Size(1000), Position::new(30_000, 0)));
    // a larger target must be nearer to be seen
    assert!(!can_see_position(p, Rotation(0), v, Size(3000), Position::new(30_000, 0)));
    // directly behind: outside the three-quarter cone
    assert!(!can_see_position(p, Rotation(0), v, Size(1000), Position::new(-30_000, 0)));
    // too far
    assert!(!can_see_position(p, Rotation(0), v, Size(1000), Position::new(80_000, 0)));
}

#[test]
fn can_see_is_translation_invariant() {
    let v = Vision { distance: 75_000, angle: 8100 };
    let cases: [(i64, i64, i64, i64, i64); 3] =
        [(1000, 2000, 21_000, 12_000, 300), (0, 0, -30_000, 5000, -9000), (500, 500, 500, 80_000, 5400)];
    for (x1, y1, x2, y2, r1) in cases {
        for (dx, dy) in [(500_000i64, -300_000i64), (-1000, 77), (0, 0)] {
            let plain = can_see_position(
                Position::new(x1, y1),
                Rotation(r1),
                v,
                Size(1500),
                Position::new(x2, y2),
            );
            let moved = can_see_position(
                Position::new(x1 + dx, y1 + dy),
                Rotation(r1),
                v,
                Size(1500),
                Position::new(x2 + dx, y2 + dy),
            );
            assert_eq!(plain, moved);
        }
    }
}

#[test]
fn visibility_graph_lists_seen_fish_ascending() {
    let a = fish_at(0, 0, 0);
    let b = fish_at(10_000, 0, 0);
    let mut c = fish_at(20_000, 0, 0);
    c.fleeing = shoal::components::Fleeing(true);
    let agents = vec![a, b, c];
    let g = visibility_graph(&agents);
    assert_eq!(g.len(), 3);
    // the first fish sees both others ahead of it
    assert_eq!(g[0], vec![1, 2]);
    // the second fish cannot see the first (directly behind) but sees the third
    assert_eq!(g[1], vec![2]);
    // a fleeing fish contributes no outgoing edges
    assert!(g[2].is_empty());
}

use shoal::components::{Agent, Fleeing, Position, Rotation, Size, Speed};
use shoal::systems::fleeing::{start_fleeing, stop_fleeing};

fn fish_at(x: i64, y: i64, heading: i64) -> Agent {
    Agent::new_fish(Position::new(x, y), Rotation::new(heading), Size(1000))
}

fn shark_at(x: i64, y: i64) -> Agent {
    let mut s = Agent::new_shark(Size(2000));
    s.position = Position::new(x, y);
    s
}

#[test]
fn visible_shark_starts_flight() {
    let fish = fish_at(0, 0, 0);
    let mut agents = vec![fish, shark_at(30_000, 0)];
    start_fleeing(&mut agents);
    // the fish flees: flag set, speed multiplied by the flight factor,
    // heading pointing straight away from the shark
    assert!(agents[0].fleeing.0);
    assert_eq!(agents[0].speed.0, 5000);
    assert_eq!(agents[0].rotation.0, -10800);
    // the shark is untouched
    assert!(!agents[1].fleeing.0);
    assert_eq!(agents[1].position, Position::new(30_000, 0));
}

#[test]
fn unseen_shark_starts_nothing() {
    let fish = fish_at(0, 0, 0);
    // directly behind the fish, outside its cone
    let mut agents = vec![fish, shark_at(-30_000, 0)];
    start_fleeing(&mut agents);
    assert!(!agents[0].fleeing.0);
    assert_eq!(agents[0].speed.0, 1250);
    assert_eq!(agents[0].rotation.0, 0);
}

#[test]
fn last_visible_shark_wins() {
    let fish = fish_at(0, 0, 0);
    let mut agents = vec![fish, shark_at(30_000, 0), shark_at(0, 30_000)];
    start_fleeing(&mut agents);
    // both sharks fire in index order: the speed multiplier is applied
    // twice and the second shark's direction persists
    assert!(agents[0].fleeing.0);
    assert_eq!(agents[0].speed.0, 20_000);
    assert_eq!(agents[0].rotation.0, -5400);
}

#[test]
fn distant_sharks_let_the_fish_disengage() {
    let mut fish = fish_at(0, 0, 0);
    fish.fleeing = Fleeing(true);
    fish.speed = Speed(5000);
    let mut agents = vec![fish, shark_at(250_000, 0)];
    stop_fleeing(&mut agents);
    // past the disengage threshold: calm again, speed divided back
    assert!(!agents[0].fleeing.0);
    assert_eq!(agents[0].speed.0, 1250);
}

#[test]
fn a_near_shark_keeps_the_fish_fleeing() {
    let mut fish = fish_at(0, 0, 0);
    fish.fleeing = Fleeing(true);
    fish.speed = Speed(5000);
    let mut agents = vec![fish, shark_at(150_000, 0)];
    stop_fleeing(&mut agents);
    assert!(agents[0].fleeing.0);
    assert_eq!(agents[0].speed.0, 5000);
}

#[test]
fn flight_speed_round_trip_is_exact() {
    let fish = fish_at(0, 0, 0);
    let base_speed = fish.speed.0;
    let mut agents = vec![fish, shark_at(30_000, 0)];
    start_fleeing(&mut agents);
    assert_eq!(agents[0].speed.0, base_speed * 4);
    // the shark swims out of range
    agents[1].position = Position::new(500_000, 0);
    stop_fleeing(&mut agents);
    assert!(!agents[0].fleeing.0);
    assert_eq!(agents[0].speed.0, base_speed);
}

use shoal::components::{Agent, Position, Rotation, Size};
use shoal::sim::{random_fish, random_shark, tick};
use shoal::systems::movement::movement;

fn fish_at(x: i64, y: i64, heading: i64) -> Agent {
    Agent::new_fish(Position::new(x, y), Rotation::new(heading), Size(1000))
}

#[test]
fn integration_advances_along_the_heading() {
    // speed 1250 milli-units per second, 8 ms of elapsed time, time rate
    // 120: the fish covers 1200 milli-units due east
    let mut agents = vec![fish_at(0, 0, 0)];
    movement(&mut agents, 8);
    assert_eq!(agents[0].position, Position::new(1200, 0));
    assert_eq!(agents[0].rotation.0, 0);
    // due north instead
    let mut agents = vec![fish_at(0, 0, 5400)];
    movement(&mut agents, 8);
    assert_eq!(agents[0].position, Position::new(0, 1200));
}

#[test]
fn a_position_past_the_wall_wraps_to_the_far_side() {
    // just past the east wall: wrapping brings it one world width back,
    // inside the walls
    let mut agents = vec![fish_at(640_500, 0, 5400)];
    movement(&mut agents, 0);
    assert_eq!(agents[0].position.x, 640_500 - 1_280_000);
    assert!(-640_000 <= agents[0].position.x && agents[0].position.x <= 640_000);
    // and symmetrically at the north wall
    let mut agents = vec![fish_at(0, 360_250, 0)];
    movement(&mut agents, 0);
    assert_eq!(agents[0].position.y, 360_250 - 720_000);
}

#[test]
fn zero_elapsed_time_only_wraps() {
    let mut agents = vec![fish_at(123, 456, 789)];
    movement(&mut agents, 0);
    assert_eq!(agents[0].position, Position::new(123, 456));
}

#[test]
fn a_tick_preserves_population_and_identity() {
    let mut agents = vec![
        fish_at(0, 0, 0),
        fish_at(10_000, 0, 5400),
        {
            let mut s = Agent::new_shark(Size(2000));
            s.position = Position::new(-100_000, 0);
            s
        },
    ];
    let kinds: Vec<_> = agents.iter().map(|a| a.kind).collect();
    let sizes: Vec<_> = agents.iter().map(|a| a.size).collect();
    tick(&mut agents, 8, true);
    assert_eq!(agents.len(), 3);
    for (i, a) in agents.iter().enumerate() {
        assert_eq!(a.kind, kinds[i]);
        assert_eq!(a.size, sizes[i]);
        assert!(a.speed.0 >= 1);
        assert!(-10800 <= a.rotation.0 && a.rotation.0 < 10800);
    }
}

#[test]
fn a_tick_sends_a_threatened_fish_fleeing() {
    let mut shark = Agent::new_shark(Size(2000));
    shark.position = Position::new(30_000, 0);
    let mut agents = vec![fish_at(0, 0, 0), shark];
    tick(&mut agents, 8, true);
    // the fish flees west at flight speed: flocking and wander leave a
    // fleeing fish alone, the wall is a whole radius away, and one
    // integration step moves it 4800 milli-units
    assert!(agents[0].fleeing.0);
    assert_eq!(agents[0].speed.0, 5000);
    assert_eq!(agents[0].rotation.0, -10800);
    assert_eq!(agents[0].position, Position::new(-4800, 0));
    assert!(!agents[1].fleeing.0);
}

#[test]
fn spawned_agents_are_well_formed() {
    for _ in 0..50 {
        let f = random_fish();
        assert!(matches!(f.kind, shoal::components::Kind::Fish));
        assert!(!f.fleeing.0);
        assert!(500 <= f.size.0 && f.size.0 <= 2000);
        assert!(-10800 <= f.rotation.0 && f.rotation.0 < 10800);
        // the circular habitat is configured: spawns land inside the disk
        assert!(f.position.x * f.position.x + f.position.y * f.position.y
            <= 360_000i64 * 360_000);
        assert_eq!(f.speed.0, 1250 * f.size.0 / 1000);
        assert_eq!(f.vision.distance, 75_000 * f.size.0 / 1000);
        assert_eq!(f.vision.angle, 8100);
        let s = random_shark();
        assert!(matches!(s.kind, shoal::components::Kind::Shark));
        assert!(1500 <= s.size.0 && s.size.0 <= 6000);
        assert_eq!(s.position, Position::new(0, 0));
        assert_eq!(s.rotation.0, 0);
        assert_eq!(s.speed.0, 750 * s.size.0 / 1000);
        assert_eq!(s.vision.distance, 75_000 * s.size.0 / 1000);
        assert_eq!(s.vision.angle, 3600);
    }
}

#[test]
fn spawn_sampling_respects_the_habitat_bounds() {
    for _ in 0..200 {
        let p = Position::random_in_circle();
        assert!(p.x * p.x + p.y * p.y <= 360_000i64 * 360_000);
        let q = Position::random_in_square();
        assert!(-640_000 <= q.x && q.x <= 640_000);
        assert!(-360_000 <= q.y && q.y <= 360_000);
    }
}

use shoal::components::{Agent, Position, Rotation, Size};
use shoal::systems::sac::{alignment, cohesion, sac, separation, visibility_graph};

fn fish_at(x: i64, y: i64, heading: i64) -> Agent {
    Agent::new_fish(Position::new(x, y), Rotation::new(heading), Size(1000))
}

#[test]
fn a_lone_fish_keeps_its_heading() {
    let mut agents = vec![fish_at(0, 0, 1234)];
    sac(&mut agents);
    assert_eq!(agents[0].rotation.0, 1234);
    assert_eq!(agents[0].position, Position::new(0, 0));
}

#[test]
fn zero_neighbors_leave_every_force_idle() {
    // two fish far outside each other's vision
    let mut agents = vec![fish_at(0, 0, 777), fish_at(500_000, 0, -777)];
    let g = visibility_graph(&agents);
    assert!(g[0].is_empty());
    assert!(g[1].is_empty());
    separation(&mut agents, &g);
    assert_eq!(agents[0].rotation.0, 777);
    assert_eq!(agents[1].rotation.0, -777);
    alignment(&mut agents, &g);
    assert_eq!(agents[0].rotation.0, 777);
    assert_eq!(agents[1].rotation.0, -777);
    cohesion(&mut agents, &g);
    assert_eq!(agents[0].rotation.0, 777);
    assert_eq!(agents[1].rotation.0, -777);
}

#[test]
fn two_overlapping_fish_step_through_the_three_forces() {
    // two fish at the same point with opposite headings and overlapping
    // vision cones; no randomness is involved in the flocking stage
    let mut agents = vec![fish_at(0, 0, 5460), fish_at(0, 0, -5340)];
    let g = visibility_graph(&agents);
    assert_eq!(g[0], vec![1]);
    assert_eq!(g[1], vec![0]);

    // separation pushes both headings away from each other, one clamped
    // contribution each
    separation(&mut agents, &g);
    assert_eq!(agents[0].rotation.0, 5580);
    assert_eq!(agents[1].rotation.0, -5460);

    // alignment pulls each toward the other's post-separation heading
    alignment(&mut agents, &g);
    assert_eq!(agents[0].rotation.0, 5640);
    assert_eq!(agents[1].rotation.0, -5520);

    // the cohesion centroid is each fish's own position, whose bearing is
    // the zero angle, so each turns one clamped step toward zero
    cohesion(&mut agents, &g);
    assert_eq!(agents[0].rotation.0, 5580);
    assert_eq!(agents[1].rotation.0, -5460);
}

#[test]
fn sac_matches_the_three_stages_run_by_hand() {
    let start = vec![fish_at(0, 0, 5460), fish_at(0, 0, -5340)];
    let mut by_stages = start.clone();
    let g = visibility_graph(&by_stages);
    separation(&mut by_stages, &g);
    alignment(&mut by_stages, &g);
    cohesion(&mut by_stages, &g);
    let mut whole = start;
    sac(&mut whole);
    assert_eq!(whole[0], by_stages[0]);
    assert_eq!(whole[1], by_stages[1]);
}

#[test]
fn cohesion_steers_toward_the_neighbor_centroid() {
    let mut agents = vec![
        fish_at(0, 0, 0),
        fish_at(20_000, 10_000, 0),
        fish_at(40_000, -30_000, 0),
    ];
    let g = visibility_graph(&agents);
    assert_eq!(g[0], vec![1, 2]);
    assert_eq!(g[1], vec![2]);
    assert_eq!(g[2], vec![1]);
    cohesion(&mut agents, &g);
    // the first fish's centroid is (30000, -10000), a bearing of -1108,
    // clamped to one cohesion step of -60; the others each steer toward
    // their one visible neighbor
    assert_eq!(agents[0].rotation.0, -60);
    assert_eq!(agents[1].rotation.0, -60);
    assert_eq!(agents[2].rotation.0, 60);
}

#[test]
fn a_fleeing_fish_is_not_steered_by_flocking() {
    let mut runner = fish_at(0, 0, 2000);
    runner.fleeing = shoal::components::Fleeing(true);
    let mut agents = vec![runner, fish_at(0, 0, 30)];
    sac(&mut agents);
    // the fleeing fish keeps its heading; the calm one still sees it and
    // is steered: separation +120, alignment +60, cohesion -60
    assert_eq!(agents[0].rotation.0, 2000);
    assert_eq!(agents[1].rotation.0, 150);
}

use ducky_boids::boid::{
    system_boid_alignment_and_cohesion, system_boid_separation, Boid, FlockingConfig,
};
use ducky_boids::movement::Velocity;
use ducky_boids::vec2::Vec2;

fn boid(entity: u64, x: i32, y: i32, vx: i32, vy: i32) -> Boid {
    Boid { entity, position: Vec2 { x, y }, velocity: Velocity(Vec2 { x: vx, y: vy }) }
}

#[test]
fn separation_pushes_two_close_boids_apart() {
    let config = FlockingConfig::default();
    let mut boids = vec![boid(1, 0, 0, 0, 0), boid(2, 10_000, 0, 0, 0)];
    system_boid_separation(&mut boids, &config);
    assert_eq!(boids[0].velocity.0, Vec2 { x: -2_000, y: 0 });
    assert_eq!(boids[1].velocity.0, Vec2 { x: 2_000, y: 0 });
    assert_eq!(boids[0].position, Vec2 { x: 0, y: 0 });
    assert_eq!(boids[1].position, Vec2 { x: 10_000, y: 0 });
}

#[test]
fn separation_force_has_a_component_away_from_each_close_boid() {
    let config = FlockingConfig::default();
    let mut boids =
        vec![boid(1, 0, 0, 0, 0), boid(2, 30_000, 10_000, 0, 0), boid(3, -5_000, 40_000, 0, 0)];
    system_boid_separation(&mut boids, &config);
    // (0,0)-(30,10) and (0,0)-(-5,40), summed and scaled by 0.2
    assert_eq!(boids[0].velocity.0, Vec2 { x: -5_000, y: -10_000 });
    let away_from_second = (0 - 30_000i64, 0 - 10_000i64);
    let v = boids[0].velocity.0;
    assert!(v.x as i64 * away_from_second.0 + v.y as i64 * away_from_second.1 > 0);
}

#[test]
fn separation_ignores_boids_beyond_the_protected_radius() {
    let config = FlockingConfig::default();
    let mut boids = vec![boid(1, 0, 0, 7, -7), boid(2, 50_001, 0, 1, 1)];
    system_boid_separation(&mut boids, &config);
    assert_eq!(boids[0].velocity.0, Vec2 { x: 7, y: -7 });
    assert_eq!(boids[1].velocity.0, Vec2 { x: 1, y: 1 });
}

#[test]
fn separation_counts_a_boid_exactly_on_the_protected_radius() {
    let config = FlockingConfig::default();
    let mut boids = vec![boid(1, 0, 0, 0, 0), boid(2, 50_000, 0, 0, 0)];
    system_boid_separation(&mut boids, &config);
    assert_eq!(boids[0].velocity.0, Vec2 { x: -10_000, y: 0 });
    assert_eq!(boids[1].velocity.0, Vec2 { x: 10_000, y: 0 });
}

#[test]
fn separation_of_a_lone_boid_changes_nothing() {
    let config = FlockingConfig::default();
    let mut boids = vec![boid(1, 5, 6, 7, 8)];
    system_boid_separation(&mut boids, &config);
    assert_eq!(boids[0].velocity.0, Vec2 { x: 7, y: 8 });
    let mut none: Vec<Boid> = Vec::new();
    system_boid_separation(&mut none, &config);
    assert!(none.is_empty());
}

#[test]
fn separation_of_coincident_boids_adds_nothing() {
    let config = FlockingConfig::default();
    let mut boids = vec![boid(1, 100, 100, 1, 2), boid(2, 100, 100, 3, 4)];
    system_boid_separation(&mut boids, &config);
    assert_eq!(boids[0].velocity.0, Vec2 { x: 1, y: 2 });
    assert_eq!(boids[1].velocity.0, Vec2 { x: 3, y: 4 });
}

#[test]
fn separation_saturates_at_the_stored_range() {
    let config = FlockingConfig { avoid_factor: 1_000_000, ..FlockingConfig::default() };
    let mut boids = vec![boid(1, 0, 0, i32::MAX - 5, 0), boid(2, -10_000, 0, 0, 0)];
    system_boid_separation(&mut boids, &config);
    assert_eq!(boids[0].velocity.0, Vec2 { x: i32::MAX, y: 0 });
    assert_eq!(boids[1].velocity.0, Vec2 { x: -10_000_000, y: 0 });
}

#[test]
fn alignment_and_cohesion_follow_the_means_of_the_neighbours() {
    let config = FlockingConfig::default();
    let mut boids = vec![
        boid(1, 0, 0, 0, 0),
        boid(2, 10_000, 0, 1_000, 2_000),
        boid(3, 0, 20_000, 3_000, -1_000),
    ];
    system_boid_alignment_and_cohesion(&mut boids, &config);
    assert_eq!(boids[0].velocity.0, Vec2 { x: 150, y: 125 });
    assert_eq!(boids[1].velocity.0, Vec2 { x: 975, y: 2_075 });
    assert_eq!(boids[2].velocity.0, Vec2 { x: 3_075, y: -1_150 });
    assert_eq!(boids[1].position, Vec2 { x: 10_000, y: 0 });
}

#[test]
fn alignment_and_cohesion_without_neighbours_add_exactly_nothing() {
    let config = FlockingConfig::default();
    let mut boids = vec![boid(1, 0, 0, 123, -456), boid(2, 100_001, 0, 9_999, 9_999)];
    system_boid_alignment_and_cohesion(&mut boids, &config);
    assert_eq!(boids[0].velocity.0, Vec2 { x: 123, y: -456 });
    assert_eq!(boids[1].velocity.0, Vec2 { x: 9_999, y: 9_999 });
    let mut lone = vec![boid(7, 1, 1, 5, 5)];
    system_boid_alignment_and_cohesion(&mut lone, &config);
    assert_eq!(lone[0].velocity.0, Vec2 { x: 5, y: 5 });
}

#[test]
fn alignment_reads_the_velocities_of_the_tick_start() {
    let config = FlockingConfig { cohesion_factor: 0, align_factor: 1_000, ..FlockingConfig::default() };
    let mut boids = vec![boid(1, 0, 0, 1_000, 0), boid(2, 1_000, 0, 0, 1_000)];
    system_boid_alignment_and_cohesion(&mut boids, &config);
    assert_eq!(boids[0].velocity.0, Vec2 { x: 1_000, y: 1_000 });
    assert_eq!(boids[1].velocity.0, Vec2 { x: 1_000, y: 1_000 });
}

#[test]
fn flocking_defaults_are_the_documented_tunables() {
    let config = FlockingConfig::default();
    assert_eq!(config.protected_radius_2, 2_500_000_000);
    assert_eq!(config.avoid_factor, 200);
    assert_eq!(config.visibility_radius_2, 10_000_000_000);
    assert_eq!(config.align_factor, 50);
    assert_eq!(config.cohesion_factor, 10);
}

fn dot(a: Vec2, b: Vec2) -> i64 {
    a.x as i64 * b.x as i64 + a.y as i64 * b.y as i64
}

#[test]
fn two_boids_in_reach_push_each_other_apart_wherever_they_stand() {
    let config = FlockingConfig::default();
    let places = [(0, 0), (5, 0), (0, -5), (12_345, -6_789), (-30_000, 30_000), (49_999, 0), (3, 4)];
    for a in places.iter() {
        for b in places.iter() {
            let apart = (a.0 as i64 - b.0 as i64, a.1 as i64 - b.1 as i64);
            if apart == (0, 0) || apart.0 * apart.0 + apart.1 * apart.1 > 2_500_000_000 {
                continue;
            }
            let mut boids = vec![boid(1, a.0, a.1, 7, -7), boid(2, b.0, b.1, -3, 3)];
            system_boid_separation(&mut boids, &config);
            let change_a = Vec2 { x: boids[0].velocity.0.x - 7, y: boids[0].velocity.0.y + 7 };
            let change_b = Vec2 { x: boids[1].velocity.0.x + 3, y: boids[1].velocity.0.y - 3 };
            let from_b_to_a = Vec2 { x: apart.0 as i32, y: apart.1 as i32 };
            let from_a_to_b = Vec2 { x: -from_b_to_a.x, y: -from_b_to_a.y };
            assert!(dot(change_a, from_b_to_a) >= 0);
            assert!(dot(change_b, from_a_to_b) >= 0);
            // a fifth of the offset reaches a whole step from five steps on
            if apart.0.abs() >= 5 || apart.1.abs() >= 5 {
                assert!(dot(change_a, from_b_to_a) > 0);
                assert!(dot(change_b, from_a_to_b) > 0);
            } else {
                assert_eq!(change_a, Vec2 { x: 0, y: 0 });
                assert_eq!(change_b, Vec2 { x: 0, y: 0 });
            }
        }
    }
}

#[test]
fn a_boid_at_the_end_of_the_range_cannot_be_pushed_further() {
    let config = FlockingConfig::default();
    let mut boids = vec![boid(1, 10_000, 0, i32::MAX, 0), boid(2, 0, 0, 0, 0)];
    system_boid_separation(&mut boids, &config);
    assert_eq!(boids[0].velocity.0, Vec2 { x: i32::MAX, y: 0 });
    assert_eq!(boids[1].velocity.0, Vec2 { x: -2_000, y: 0 });
}

use ducky_boids::duck_boid::{
    system_boid_mating_attraction, system_boid_update_close_adults, AdultBoid, CloseAdults,
    MatingConfig, CLOSE_ADULTS_RADIUS_2,
};
use ducky_boids::movement::Velocity;
use ducky_boids::vec2::Vec2;

fn adult(entity: u64, x: i32, y: i32, close: Vec<(Vec2, u64)>) -> AdultBoid {
    AdultBoid {
        entity,
        position: Vec2 { x, y },
        velocity: Velocity(Vec2 { x: 0, y: 0 }),
        close_adults: CloseAdults(close),
        sambo: None,
    }
}

fn at(x: i32, y: i32) -> Vec2 {
    Vec2 { x, y }
}

#[test]
fn lonely_adults_in_sight_attract_each_other() {
    let config = MatingConfig::default();
    let mut adults = vec![adult(1, 0, 0, vec![]), adult(2, 100_000, 0, vec![])];
    system_boid_mating_attraction(16, &mut adults, &config);
    assert_eq!(adults[0].velocity.0, at(800, 0));
    assert_eq!(adults[1].velocity.0, at(-800, 0));
    assert_eq!(adults[0].position, at(0, 0));
    assert!(adults[0].close_adults.0.is_empty());
}

#[test]
fn attraction_stops_within_the_minimum_distance() {
    let config = MatingConfig::default();
    let mut adults = vec![
        adult(1, 0, 0, vec![(at(40_000, 0), 2)]),
        adult(2, 40_000, 0, vec![(at(0, 0), 1)]),
    ];
    system_boid_mating_attraction(16, &mut adults, &config);
    assert_eq!(adults[0].velocity.0, at(0, 0));
    assert_eq!(adults[1].velocity.0, at(0, 0));
}

#[test]
fn attraction_goes_to_the_closest_lonely_adult_and_the_first_of_equals() {
    let config = MatingConfig::default();
    let mut adults = vec![
        adult(1, 0, 0, vec![]),
        adult(2, 0, 200_000, vec![]),
        adult(3, 100_000, 0, vec![]),
        adult(4, -100_000, 0, vec![]),
    ];
    system_boid_mating_attraction(16, &mut adults, &config);
    // entities 3 and 4 are equally close to 1; 3 comes first
    assert_eq!(adults[0].velocity.0, at(800, 0));
}

#[test]
fn an_adult_whose_only_close_adult_is_the_seeker_counts_as_lonely() {
    let config = MatingConfig::default();
    let mut adults = vec![
        adult(1, 0, 0, vec![(at(60_000, 0), 2)]),
        adult(2, 60_000, 0, vec![(at(0, 0), 1)]),
    ];
    system_boid_mating_attraction(1_000, &mut adults, &config);
    assert_eq!(adults[0].velocity.0, at(50_000, 0));
    assert_eq!(adults[1].velocity.0, at(-50_000, 0));
}

#[test]
fn adults_out_of_sight_do_not_attract() {
    let config = MatingConfig::default();
    let mut adults = vec![adult(1, 0, 0, vec![]), adult(2, 500_001, 0, vec![])];
    system_boid_mating_attraction(16, &mut adults, &config);
    assert_eq!(adults[0].velocity.0, at(0, 0));
    assert_eq!(adults[1].velocity.0, at(0, 0));
    let mut edge = vec![adult(1, 0, 0, vec![]), adult(2, 500_000, 0, vec![])];
    system_boid_mating_attraction(16, &mut edge, &config);
    assert_eq!(edge[0].velocity.0, at(800, 0));
}

#[test]
fn without_a_lonely_adult_the_biggest_group_repels() {
    let config = MatingConfig::default();
    let mut adults = vec![
        adult(1, 0, 0, vec![]),
        adult(2, 100_000, 0, vec![(at(110_000, 0), 3), (at(90_000, 20_000), 4)]),
        adult(3, 110_000, 0, vec![(at(100_000, 0), 2)]),
    ];
    system_boid_mating_attraction(16, &mut adults, &config);
    // away from the centre (100, 10) of the group around entity 2, by 0.4 * dt
    assert_eq!(adults[0].velocity.0, at(-5, 0));
}

#[test]
fn group_repulsion_over_a_whole_second() {
    let config = MatingConfig::default();
    let mut adults = vec![
        adult(1, 0, 0, vec![]),
        adult(2, 30_000, 40_000, vec![(at(30_000, 40_000), 8), (at(30_000, 40_000), 9)]),
    ];
    system_boid_mating_attraction(1_000, &mut adults, &config);
    assert_eq!(adults[0].velocity.0, at(-240, -320));
}

#[test]
fn a_group_centred_on_the_adult_itself_gives_no_direction() {
    let config = MatingConfig::default();
    let mut adults = vec![
        adult(1, 0, 0, vec![]),
        adult(2, 10_000, 0, vec![(at(-5_000, 0), 5), (at(5_000, 0), 6)]),
    ];
    system_boid_mating_attraction(1_000, &mut adults, &config);
    assert_eq!(adults[0].velocity.0, at(0, 0));
}

#[test]
fn mating_attraction_after_a_proximity_query() {
    let config = MatingConfig::default();
    let mut adults = vec![adult(1, 0, 0, vec![]), adult(2, 0, 300_000, vec![])];
    system_boid_update_close_adults(&mut adults, CLOSE_ADULTS_RADIUS_2);
    system_boid_mating_attraction(100, &mut adults, &config);
    assert_eq!(adults[0].velocity.0, at(0, 5_000));
    assert_eq!(adults[1].velocity.0, at(0, -5_000));
}

#[test]
fn mating_defaults_are_the_documented_tunables() {
    let config = MatingConfig::default();
    assert_eq!(config.mating_visibility_radius_2, 250_000_000_000);
    assert_eq!(config.mating_min_distance_2, 2_500_000_000);
    assert_eq!(config.towards_lonely_adult_factor, 50_000);
    assert_eq!(config.avoid_adult_group_factor, 400);
}

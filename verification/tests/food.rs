use ducky_boids::boid::Boid;
use ducky_boids::duck_boid::{
    system_boids_ducklings_towards_adults, system_boids_food, FollowConfig, FoodConfig,
};
use ducky_boids::movement::Velocity;
use ducky_boids::target::{find_closest_target, Target};
use ducky_boids::vec2::Vec2;

fn at(x: i32, y: i32) -> Vec2 {
    Vec2 { x, y }
}

fn boid(entity: u64, x: i32, y: i32) -> Boid {
    Boid { entity, position: at(x, y), velocity: Velocity(at(0, 0)) }
}

fn target(entity: u64, x: i32, y: i32) -> Target {
    Target { entity, position: at(x, y) }
}

#[test]
fn a_duck_eats_the_closest_food_in_reach() {
    let config = FoodConfig::default();
    let foods = vec![target(10, 30_000, 0), target(11, 0, 20_000), target(12, 0, -20_000)];
    let mut ducks = vec![boid(1, 0, 0)];
    let eaten = system_boids_food(16, &foods, &mut ducks, &config);
    // 11 and 12 are equally close; 11 comes first
    assert_eq!(eaten, vec![Some(11)]);
    assert_eq!(ducks[0].velocity.0, at(0, 0));
}

#[test]
fn a_duck_steers_toward_food_in_sight() {
    let config = FoodConfig::default();
    let foods = vec![target(10, 0, 100_000), target(11, 200_000, 0)];
    let mut ducks = vec![boid(1, 0, 0), boid(2, 60_000, 20_000)];
    let eaten = system_boids_food(16, &foods, &mut ducks, &config);
    assert_eq!(eaten, vec![None, None]);
    assert_eq!(ducks[0].velocity.0, at(0, 1_920));
    // (-60, 80) is 100 long
    assert_eq!(ducks[1].velocity.0, at(-1_152, 1_536));
    assert_eq!(ducks[1].position, at(60_000, 20_000));
}

#[test]
fn food_out_of_sight_is_ignored() {
    let config = FoodConfig::default();
    let foods = vec![target(10, 200_000, 0)];
    let mut ducks = vec![boid(1, 0, 0)];
    let eaten = system_boids_food(16, &foods, &mut ducks, &config);
    assert_eq!(eaten, vec![None]);
    assert_eq!(ducks[0].velocity.0, at(0, 0));
    let none: Vec<Target> = Vec::new();
    let eaten = system_boids_food(16, &none, &mut ducks, &config);
    assert_eq!(eaten, vec![None]);
}

#[test]
fn food_on_the_eating_radius_is_eaten() {
    let config = FoodConfig::default();
    let mut ducks = vec![boid(1, 0, 0), boid(2, 0, 1)];
    let foods = vec![target(10, 0, -25_000)];
    let eaten = system_boids_food(16, &foods, &mut ducks, &config);
    assert_eq!(eaten, vec![Some(10), None]);
    assert_eq!(ducks[1].velocity.0, at(0, -1_920));
}

#[test]
fn two_ducks_may_eat_the_same_food() {
    let config = FoodConfig::default();
    let mut ducks = vec![boid(1, 0, 0), boid(2, 10, 10)];
    let foods = vec![target(10, 5, 5)];
    let eaten = system_boids_food(16, &foods, &mut ducks, &config);
    assert_eq!(eaten, vec![Some(10), Some(10)]);
}

#[test]
fn food_at_the_very_place_of_a_duck_gives_no_direction() {
    let config = FoodConfig { food_eating_radius_2: -1, ..FoodConfig::default() };
    let mut ducks = vec![boid(1, 7, 7)];
    let foods = vec![target(10, 7, 7)];
    // with this radius nothing can be eaten
    let eaten = system_boids_food(16, &foods, &mut ducks, &config);
    assert_eq!(eaten, vec![None]);
    assert_eq!(ducks[0].velocity.0, at(0, 0));
}

#[test]
fn ducklings_follow_the_closest_adult_in_sight() {
    let config = FollowConfig::default();
    let adults = vec![target(1, 30_000, 40_000), target(2, 90_000, 0)];
    let mut ducklings = vec![boid(5, 0, 0), boid(6, 100_000, 0), boid(7, -100_000, -100_000)];
    system_boids_ducklings_towards_adults(16, &adults, &mut ducklings, &config);
    assert_eq!(ducklings[0].velocity.0, at(480, 640));
    assert_eq!(ducklings[1].velocity.0, at(-800, 0));
    assert_eq!(ducklings[2].velocity.0, at(0, 0));
    assert_eq!(ducklings[0].position, at(0, 0));
}

#[test]
fn the_closest_target_is_the_first_of_the_closest_in_sight() {
    let targets = vec![target(1, 50, 0), target(2, 0, 30), target(3, -30, 0), target(4, 0, 10_000)];
    assert_eq!(find_closest_target(at(0, 0), &targets, 10_000), Some(1));
    assert_eq!(find_closest_target(at(0, 0), &targets, 901), Some(1));
    assert_eq!(find_closest_target(at(0, 0), &targets, 900), None);
    assert_eq!(find_closest_target(at(0, 9_999), &targets, 900), Some(3));
    let none: Vec<Target> = Vec::new();
    assert_eq!(find_closest_target(at(0, 0), &none, i64::MAX), None);
}

#[test]
fn food_defaults_are_the_documented_tunables() {
    let food = FoodConfig::default();
    assert_eq!(food.food_visibility_radius_2, 40_000_000_000);
    assert_eq!(food.food_eating_radius_2, 625_000_000);
    assert_eq!(food.towards_food_factor, 120_000);
    let follow = FollowConfig::default();
    assert_eq!(follow.visibility_radius_2, 10_000_000_000);
    assert_eq!(follow.towards_adult_factor, 50_000);
}

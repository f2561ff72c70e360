use ducky_boids::boid::{system_boid_alignment_and_cohesion_checked, Boid, FlockingConfig};
use ducky_boids::duck_boid::{
    system_boid_mating_attraction_checked, system_boid_update_close_adults,
    system_boid_update_close_adults_checked, AdultBoid, CloseAdults, MatingConfig,
    CLOSE_ADULTS_RADIUS_2,
};
use ducky_boids::entity::are_distinct;
use ducky_boids::movement::Velocity;
use ducky_boids::vec2::Vec2;

fn adult(entity: u64, x: i32, y: i32) -> AdultBoid {
    AdultBoid {
        entity,
        position: Vec2 { x, y },
        velocity: Velocity(Vec2 { x: 1, y: 2 }),
        close_adults: CloseAdults(Vec::new()),
        sambo: None,
    }
}

#[test]
fn close_adults_are_the_others_strictly_within_the_radius() {
    let mut adults = vec![adult(1, 0, 0), adult(2, 10_000, 0), adult(3, 75_000, 0)];
    system_boid_update_close_adults(&mut adults, CLOSE_ADULTS_RADIUS_2);
    assert_eq!(adults[0].close_adults.0, vec![(Vec2 { x: 10_000, y: 0 }, 2)]);
    assert_eq!(
        adults[1].close_adults.0,
        vec![(Vec2 { x: 0, y: 0 }, 1), (Vec2 { x: 75_000, y: 0 }, 3)]
    );
    assert_eq!(adults[2].close_adults.0, vec![(Vec2 { x: 10_000, y: 0 }, 2)]);
    assert_eq!(adults[0].velocity.0, Vec2 { x: 1, y: 2 });
    assert_eq!(adults[2].position, Vec2 { x: 75_000, y: 0 });
}

#[test]
fn an_adult_is_never_among_its_own_close_adults() {
    let mut adults = vec![adult(1, 0, 0), adult(2, 0, 0), adult(3, 1, 1)];
    system_boid_update_close_adults(&mut adults, CLOSE_ADULTS_RADIUS_2);
    for a in adults.iter() {
        assert_eq!(a.close_adults.0.len(), 2);
        for entry in a.close_adults.0.iter() {
            assert_ne!(entry.1, a.entity);
        }
    }
}

#[test]
fn close_adults_come_in_population_order() {
    let mut adults = vec![adult(9, 0, 0), adult(4, 100, 0), adult(7, 0, 100), adult(1, -100, 0)];
    system_boid_update_close_adults(&mut adults, CLOSE_ADULTS_RADIUS_2);
    let handles: Vec<u64> = adults[2].close_adults.0.iter().map(|e| e.1).collect();
    assert_eq!(handles, vec![9, 4, 1]);
}

#[test]
fn proximity_query_replaces_stale_lists() {
    let mut adults = vec![adult(1, 0, 0), adult(2, 500_000, 0)];
    adults[0].close_adults = CloseAdults(vec![(Vec2 { x: 3, y: 3 }, 2)]);
    system_boid_update_close_adults(&mut adults, CLOSE_ADULTS_RADIUS_2);
    assert!(adults[0].close_adults.0.is_empty());
    assert!(adults[1].close_adults.0.is_empty());
}

#[test]
fn proximity_query_twice_gives_identical_lists() {
    let mut adults = vec![
        adult(1, 0, 0),
        adult(2, 10_000, 0),
        adult(3, 75_000, 0),
        adult(4, 20_000, 30_000),
        adult(5, -400_000, 0),
    ];
    system_boid_update_close_adults(&mut adults, CLOSE_ADULTS_RADIUS_2);
    let first: Vec<Vec<(Vec2, u64)>> = adults.iter().map(|a| a.close_adults.0.clone()).collect();
    system_boid_update_close_adults(&mut adults, CLOSE_ADULTS_RADIUS_2);
    let second: Vec<Vec<(Vec2, u64)>> = adults.iter().map(|a| a.close_adults.0.clone()).collect();
    assert_eq!(first, second);
    assert_eq!(first[4], Vec::new());
    assert_eq!(first[0].len(), 2);
}

#[test]
fn proximity_query_of_nobody_and_of_one() {
    let mut nobody: Vec<AdultBoid> = Vec::new();
    system_boid_update_close_adults(&mut nobody, CLOSE_ADULTS_RADIUS_2);
    assert!(nobody.is_empty());
    let mut one = vec![adult(1, 5, 5)];
    system_boid_update_close_adults(&mut one, CLOSE_ADULTS_RADIUS_2);
    assert!(one[0].close_adults.0.is_empty());
}

#[test]
fn proximity_query_spans_the_whole_stored_range() {
    let mut adults = vec![adult(1, i32::MIN, i32::MIN), adult(2, i32::MAX, i32::MAX)];
    system_boid_update_close_adults(&mut adults, i64::MAX);
    assert!(adults[0].close_adults.0.is_empty());
    assert!(adults[1].close_adults.0.is_empty());
}

#[test]
fn handles_are_told_apart() {
    assert!(are_distinct(&vec![]));
    assert!(are_distinct(&vec![7]));
    assert!(are_distinct(&vec![3, 1, 2, u64::MAX, 0]));
    assert!(!are_distinct(&vec![3, 1, 3]));
    assert!(!are_distinct(&vec![5, 5]));
    assert!(!are_distinct(&vec![1, 2, 3, 4, 4]));
}

#[test]
fn every_adult_gets_its_own_list_whatever_the_handles() {
    // handles far apart and out of order land in different places of the store's map
    let handles = [u64::MAX, 0, 0x1_FFFF_FFFF, 42, 1 << 40, 7];
    let mut adults: Vec<AdultBoid> = handles
        .iter()
        .enumerate()
        .map(|(i, h)| adult(*h, (i as i32) * 80_000, 0))
        .collect();
    // the second and the third are moved next to each other
    adults[2].position = Vec2 { x: 80_000 + 10, y: 0 };
    system_boid_update_close_adults(&mut adults, CLOSE_ADULTS_RADIUS_2);
    assert!(adults[0].close_adults.0.is_empty());
    assert_eq!(adults[1].close_adults.0, vec![(Vec2 { x: 80_010, y: 0 }, 0x1_FFFF_FFFF)]);
    assert_eq!(adults[2].close_adults.0, vec![(Vec2 { x: 80_000, y: 0 }, 0)]);
    assert!(adults[3].close_adults.0.is_empty());
    assert!(adults[4].close_adults.0.is_empty());
    assert!(adults[5].close_adults.0.is_empty());
}

#[test]
fn a_population_with_a_handle_twice_is_left_alone() {
    let mut adults = vec![adult(1, 0, 0), adult(2, 10, 0), adult(1, 20, 0)];
    adults[0].close_adults = CloseAdults(vec![(Vec2 { x: 5, y: 5 }, 9)]);
    assert!(!system_boid_update_close_adults_checked(&mut adults, CLOSE_ADULTS_RADIUS_2));
    assert_eq!(adults[0].close_adults.0, vec![(Vec2 { x: 5, y: 5 }, 9)]);
    assert!(adults[1].close_adults.0.is_empty());
    let config = MatingConfig::default();
    assert!(!system_boid_mating_attraction_checked(1_000, &mut adults, &config));
    assert_eq!(adults[1].velocity.0, Vec2 { x: 1, y: 2 });
    let mut boids = vec![
        Boid { entity: 4, position: Vec2 { x: 0, y: 0 }, velocity: Velocity(Vec2 { x: 9, y: 9 }) },
        Boid { entity: 4, position: Vec2 { x: 1, y: 0 }, velocity: Velocity(Vec2 { x: 0, y: 0 }) },
    ];
    assert!(!system_boid_alignment_and_cohesion_checked(&mut boids, &FlockingConfig::default()));
    assert_eq!(boids[1].velocity.0, Vec2 { x: 0, y: 0 });
}

#[test]
fn a_population_with_distinct_handles_is_served() {
    let mut adults = vec![adult(1, 0, 0), adult(2, 100_000, 0)];
    assert!(system_boid_update_close_adults_checked(&mut adults, CLOSE_ADULTS_RADIUS_2));
    assert!(adults[0].close_adults.0.is_empty());
    let config = MatingConfig::default();
    assert!(system_boid_mating_attraction_checked(16, &mut adults, &config));
    assert_eq!(adults[0].velocity.0, Vec2 { x: 801, y: 2 });
    let mut boids = vec![
        Boid { entity: 4, position: Vec2 { x: 0, y: 0 }, velocity: Velocity(Vec2 { x: 1_000, y: 0 }) },
        Boid { entity: 5, position: Vec2 { x: 1_000, y: 0 }, velocity: Velocity(Vec2 { x: 0, y: 0 }) },
    ];
    assert!(system_boid_alignment_and_cohesion_checked(&mut boids, &FlockingConfig::default()));
    // a twentieth of the other's velocity, a hundredth of the way to it
    assert_eq!(boids[1].velocity.0, Vec2 { x: 50 - 10, y: 0 });
    assert_eq!(boids[0].velocity.0, Vec2 { x: 1_000 + 10, y: 0 });
}

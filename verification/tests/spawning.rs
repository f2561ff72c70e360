use ducky_boids::life_cycles::LifeCycleConfig;
use ducky_boids::movement::Window;
use ducky_boids::spawning::{
    draw_spawn_position, spawn_boid, spawn_food, spawn_relationship_sprite, spawn_threat,
    system_continuous_threat_spawning, system_spawn_boids, system_spawn_threats, CurrentThreats,
    ThreatSprite,
};
use ducky_boids::vec2::Vec2;

const HALF: u32 = 0x8000_0000;

#[test]
fn a_new_egg_hatches_within_the_hatching_times() {
    let config = LifeCycleConfig::default();
    let egg = spawn_boid(Vec2 { x: 3, y: 4 }, 0, &config);
    assert_eq!(egg.position, Vec2 { x: 3, y: 4 });
    assert_eq!(egg.time.0, 5_000);
    assert_eq!(egg.appearance.z_value, -1_000);
    assert_eq!(egg.appearance.scale, 500);
    assert_eq!(spawn_boid(Vec2 { x: 0, y: 0 }, HALF, &config).time.0, 10_000);
    assert_eq!(spawn_boid(Vec2 { x: 0, y: 0 }, u32::MAX, &config).time.0, 14_999);
}

#[test]
fn spawn_positions_cover_the_starting_area() {
    assert_eq!(draw_spawn_position(0, 0), Vec2 { x: -400_000, y: -300_000 });
    assert_eq!(draw_spawn_position(HALF, HALF), Vec2 { x: 0, y: 0 });
    assert_eq!(draw_spawn_position(u32::MAX, u32::MAX), Vec2 { x: 399_999, y: 299_999 });
    assert_eq!(draw_spawn_position(1 << 30, 3 << 30), Vec2 { x: -200_000, y: 150_000 });
}

#[test]
fn a_game_starts_with_ten_eggs_in_the_starting_area() {
    let config = LifeCycleConfig::default();
    let eggs = system_spawn_boids(&config);
    assert_eq!(eggs.len(), 10);
    let mut places = Vec::new();
    for egg in eggs.iter() {
        assert!(5_000 <= egg.time.0 && egg.time.0 <= 15_000);
        assert!(-400_000 <= egg.position.x && egg.position.x < 400_000);
        assert!(-300_000 <= egg.position.y && egg.position.y < 300_000);
        assert_eq!(egg.appearance.last_frame, 0);
        if !places.contains(&egg.position) {
            places.push(egg.position);
        }
    }
    assert!(places.len() > 1);
}

#[test]
fn a_new_threat_is_counted() {
    let mut current = CurrentThreats::default();
    let threat = spawn_threat(Vec2 { x: 1, y: 2 }, &mut current, true, 6, 0, 3);
    assert_eq!(current.0, 1);
    assert_eq!(threat.position, Vec2 { x: 1, y: 2 });
    assert_eq!(threat.sprite, ThreatSprite::Tabby);
    assert_eq!(threat.animation_start_index, 2);
    assert_eq!(threat.frame_seconds, 1_000);
    assert_eq!(threat.threat.eating_cooldown, 0);
    assert!(!threat.threat.running);
    assert_eq!(threat.velocity.0, Vec2 { x: 0, y: 0 });
    assert_eq!((threat.limits.min, threat.limits.max), (0, 200_000));
    let threat = spawn_threat(Vec2 { x: 0, y: 0 }, &mut current, false, 0, HALF, 7);
    assert_eq!(current.0, 2);
    assert_eq!(threat.sprite, ThreatSprite::Variation(3));
    assert_eq!(threat.frame_seconds, 1_250);
    let mut full = CurrentThreats(i32::MAX);
    spawn_threat(Vec2 { x: 0, y: 0 }, &mut full, false, 0, 0, 0);
    assert_eq!(full.0, i32::MAX);
}

#[test]
fn a_game_starts_with_two_threats_and_the_first_is_the_tabby() {
    let mut current = CurrentThreats::default();
    let threats = system_spawn_threats(&mut current);
    assert_eq!(threats.len(), 2);
    assert_eq!(current.0, 2);
    assert_eq!(threats[0].sprite, ThreatSprite::Tabby);
    match threats[1].sprite {
        ThreatSprite::Variation(i) => assert!(i < 4),
        ThreatSprite::Tabby => panic!("the second threat is no tabby"),
    }
    for threat in threats.iter() {
        assert!(threat.animation_start_index < 4);
        assert!(1_000 <= threat.frame_seconds && threat.frame_seconds < 1_500);
        assert!(-400_000 <= threat.position.x && threat.position.x < 400_000);
        assert!(-300_000 <= threat.position.y && threat.position.y < 300_000);
    }
}

#[test]
fn another_threat_comes_when_the_ducks_are_too_many() {
    let window = Some(Window { width: 800_000, height: 600_000 });
    assert_eq!(system_continuous_threat_spawning(&CurrentThreats(0), window, 1), Some(450_000));
    assert_eq!(system_continuous_threat_spawning(&CurrentThreats(0), window, 0), None);
    assert_eq!(system_continuous_threat_spawning(&CurrentThreats(1), window, 15), None);
    assert_eq!(system_continuous_threat_spawning(&CurrentThreats(1), window, 16), Some(450_000));
    assert_eq!(system_continuous_threat_spawning(&CurrentThreats(2), window, 30), None);
    assert_eq!(system_continuous_threat_spawning(&CurrentThreats(0), None, 100), None);
    let odd = Some(Window { width: 1_001, height: 1 });
    assert_eq!(system_continuous_threat_spawning(&CurrentThreats(-1), odd, 0), Some(50_500));
}

#[test]
fn new_food_gets_one_of_the_looks() {
    let food = spawn_food(Vec2 { x: 9, y: -9 }, 6);
    assert_eq!(food.position, Vec2 { x: 9, y: -9 });
    assert_eq!(food.sprite_index, 2);
    assert_eq!(spawn_food(Vec2 { x: 0, y: 0 }, u32::MAX).sprite_index, 3);
}

#[test]
fn the_sign_of_a_pair_floats_in_front_of_the_ducks() {
    let sign = spawn_relationship_sprite(Vec2 { x: 5_000, y: 25_000 });
    assert_eq!(sign.position, Vec2 { x: 5_000, y: 25_000 });
    let look = sign.appearance;
    assert_eq!(
        (look.z_value, look.scale, look.first_frame, look.last_frame, look.frame_seconds),
        (5_000, 500, 0, 3, 250)
    );
}

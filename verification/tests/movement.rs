use ducky_boids::movement::{
    clamp_length, is_avoiding_edge, system_avoid_edges, system_clamp_velocity,
    system_flip_based_on_velocity, system_movement, Body, EdgeConfig, Facing, Heading, Mover,
    Velocity, VelocityLimits, Window,
};
use ducky_boids::vec2::Vec2;

fn v(x: i32, y: i32) -> Vec2 {
    Vec2 { x, y }
}

fn len2(v: Vec2) -> i128 {
    (v.x as i128) * (v.x as i128) + (v.y as i128) * (v.y as i128)
}

#[test]
fn movement_integrates_velocity_over_the_tick() {
    let mut bodies = vec![
        Body { position: v(1_000, -2_000), velocity: Velocity(v(50_000, -25_000)) },
        Body { position: v(0, 0), velocity: Velocity(v(-1_500, 1_500)) },
    ];
    system_movement(16, &mut bodies);
    assert_eq!(bodies[0].position, v(1_800, -2_400));
    assert_eq!(bodies[0].velocity.0, v(50_000, -25_000));
    assert_eq!(bodies[1].position, v(-24, 24));
    system_movement(1, &mut bodies);
    // 1.5 steps round toward zero, on both sides
    assert_eq!(bodies[1].position, v(-25, 25));
}

#[test]
fn movement_with_no_time_or_no_speed_stays() {
    let mut bodies = vec![
        Body { position: v(5, 5), velocity: Velocity(v(50_000, 50_000)) },
        Body { position: v(-5, -5), velocity: Velocity(v(0, 0)) },
    ];
    system_movement(0, &mut bodies);
    assert_eq!(bodies[0].position, v(5, 5));
    system_movement(1_000, &mut bodies);
    assert_eq!(bodies[0].position, v(50_005, 50_005));
    assert_eq!(bodies[1].position, v(-5, -5));
}

#[test]
fn movement_stops_at_the_end_of_the_stored_range() {
    let mut bodies =
        vec![Body { position: v(i32::MAX - 10, i32::MIN + 10), velocity: Velocity(v(1_000, -1_000)) }];
    system_movement(1_000, &mut bodies);
    assert_eq!(bodies[0].position, v(i32::MAX, i32::MIN));
}

#[test]
fn clamp_stretches_a_slow_vector_to_the_least_speed() {
    let limits = VelocityLimits::default();
    assert_eq!(clamp_length(v(3_000, 4_000), &limits), v(30_000, 40_000));
    assert_eq!(clamp_length(v(-3_000, 4_000), &limits), v(-30_000, 40_000));
}

#[test]
fn clamp_shrinks_a_fast_vector_to_the_greatest_speed() {
    let limits = VelocityLimits::default();
    assert_eq!(clamp_length(v(300_000, 400_000), &limits), v(90_000, 120_000));
    assert_eq!(clamp_length(v(300_000, -400_000), &limits), v(90_000, -120_000));
}

#[test]
fn clamp_leaves_a_vector_within_the_limits() {
    let limits = VelocityLimits::default();
    assert_eq!(clamp_length(v(60_000, 80_000), &limits), v(60_000, 80_000));
    assert_eq!(clamp_length(v(50_000, 0), &limits), v(50_000, 0));
    assert_eq!(clamp_length(v(0, -150_000), &limits), v(0, -150_000));
}

#[test]
fn clamp_leaves_the_zero_vector_at_rest() {
    let limits = VelocityLimits::default();
    assert_eq!(clamp_length(v(0, 0), &limits), v(0, 0));
    let still = VelocityLimits { min: 0, max: 200_000 };
    assert_eq!(clamp_length(v(0, 0), &still), v(0, 0));
}

#[test]
fn clamp_falls_back_to_the_main_axis_where_rounding_misses_the_limits() {
    let tight = VelocityLimits { min: 5, max: 5 };
    assert_eq!(clamp_length(v(10, 10), &tight), v(5, 0));
    assert_eq!(clamp_length(v(-10, -20), &tight), v(0, -5));
    assert_eq!(clamp_length(v(1, 1), &tight), v(5, 0));
    assert_eq!(clamp_length(v(3, 4), &tight), v(3, 4));
}

#[test]
fn clamped_speed_is_within_the_limits_for_every_moving_vector() {
    let all = [
        VelocityLimits::default(),
        VelocityLimits { min: 0, max: 200_000 },
        VelocityLimits { min: 5, max: 5 },
        VelocityLimits { min: 7, max: 9 },
        VelocityLimits { min: 0, max: 0 },
        VelocityLimits { min: i32::MAX, max: i32::MAX },
    ];
    let coordinates =
        [i32::MIN, -1_000_000, -150_001, -50_000, -7, -1, 0, 1, 2, 6, 49_999, 150_000, 3_000_000, i32::MAX];
    for limits in all.iter() {
        let min2 = (limits.min as i128) * (limits.min as i128);
        let max2 = (limits.max as i128) * (limits.max as i128);
        for x in coordinates.iter() {
            for y in coordinates.iter() {
                let out = clamp_length(v(*x, *y), limits);
                if *x == 0 && *y == 0 {
                    assert_eq!(out, v(0, 0));
                } else {
                    assert!(min2 <= len2(out) && len2(out) <= max2);
                }
            }
        }
    }
}

#[test]
fn clamp_velocity_goes_by_the_limits_of_each_agent() {
    let mut movers = vec![
        Mover { velocity: Velocity(v(3_000, 4_000)), limits: VelocityLimits::default() },
        Mover { velocity: Velocity(v(3_000, 4_000)), limits: VelocityLimits { min: 0, max: 200_000 } },
        Mover { velocity: Velocity(v(0, 400_000)), limits: VelocityLimits { min: 0, max: 200_000 } },
        Mover { velocity: Velocity(v(0, 0)), limits: VelocityLimits::default() },
    ];
    system_clamp_velocity(&mut movers);
    assert_eq!(movers[0].velocity.0, v(30_000, 40_000));
    assert_eq!(movers[1].velocity.0, v(3_000, 4_000));
    assert_eq!(movers[2].velocity.0, v(0, 200_000));
    assert_eq!(movers[3].velocity.0, v(0, 0));
    assert_eq!(movers[0].limits.min, 50_000);
    assert_eq!(movers[2].limits.max, 200_000);
}

#[test]
fn default_limits_are_those_of_a_duck() {
    let limits = VelocityLimits::default();
    assert_eq!(limits.min, 50_000);
    assert_eq!(limits.max, 150_000);
}

#[test]
fn edges_turn_agents_back_into_the_arena() {
    let window = Window { width: 800_000, height: 600_000 };
    let config = EdgeConfig::default();
    let mut bodies = vec![
        Body { position: v(-350_000, 0), velocity: Velocity(v(0, 0)) },
        Body { position: v(350_000, 250_000), velocity: Velocity(v(10, 10)) },
        Body { position: v(0, -250_000), velocity: Velocity(v(0, -100)) },
        Body { position: v(0, 0), velocity: Velocity(v(1, 2)) },
        Body { position: v(-300_000, 200_000), velocity: Velocity(v(1, 2)) },
    ];
    system_avoid_edges(16, &mut bodies, Some(window), &config);
    assert_eq!(bodies[0].velocity.0, v(2_080, 0));
    assert_eq!(bodies[1].velocity.0, v(-2_070, -2_070));
    assert_eq!(bodies[2].velocity.0, v(0, 1_980));
    assert_eq!(bodies[3].velocity.0, v(1, 2));
    // exactly on the margin is not yet within it
    assert_eq!(bodies[4].velocity.0, v(1, 2));
    assert_eq!(bodies[0].position, v(-350_000, 0));
}

#[test]
fn edges_without_a_window_change_nothing() {
    let config = EdgeConfig::default();
    let mut bodies = vec![Body { position: v(-350_000, 0), velocity: Velocity(v(3, 4)) }];
    system_avoid_edges(16, &mut bodies, None, &config);
    assert_eq!(bodies[0].velocity.0, v(3, 4));
    assert_eq!(bodies[0].position, v(-350_000, 0));
}

#[test]
fn edge_push_can_exceed_the_greatest_speed_until_the_next_clamp() {
    let window = Window { width: 800_000, height: 600_000 };
    let config = EdgeConfig::default();
    let mut bodies = vec![Body { position: v(-390_000, 0), velocity: Velocity(v(150_000, 0)) }];
    system_avoid_edges(16, &mut bodies, Some(window), &config);
    assert_eq!(bodies[0].velocity.0, v(152_080, 0));
    let clamped = clamp_length(bodies[0].velocity.0, &VelocityLimits::default());
    assert_eq!(clamped, v(150_000, 0));
}

#[test]
fn avoiding_edge_within_the_margin_of_any_border() {
    let window = Window { width: 800_000, height: 600_000 };
    assert!(is_avoiding_edge(v(-300_001, 0), &window, 100_000));
    assert!(is_avoiding_edge(v(300_001, 0), &window, 100_000));
    assert!(is_avoiding_edge(v(0, -200_001), &window, 100_000));
    assert!(is_avoiding_edge(v(0, 200_001), &window, 100_000));
    assert!(!is_avoiding_edge(v(-300_000, 200_000), &window, 100_000));
    assert!(!is_avoiding_edge(v(0, 0), &window, 100_000));
}

#[test]
fn facing_flips_only_beyond_the_threshold() {
    let mut headings = vec![
        Heading { velocity: Velocity(v(60_000, 0)), facing: Facing::Left },
        Heading { velocity: Velocity(v(-60_000, 0)), facing: Facing::Right },
        Heading { velocity: Velocity(v(50_000, 0)), facing: Facing::Left },
        Heading { velocity: Velocity(v(-50_000, 0)), facing: Facing::Right },
        Heading { velocity: Velocity(v(0, 90_000)), facing: Facing::Left },
        Heading { velocity: Velocity(v(50_001, 0)), facing: Facing::Right },
    ];
    system_flip_based_on_velocity(&mut headings, 50_000);
    assert_eq!(headings[0].facing, Facing::Right);
    assert_eq!(headings[1].facing, Facing::Left);
    assert_eq!(headings[2].facing, Facing::Left);
    assert_eq!(headings[3].facing, Facing::Right);
    assert_eq!(headings[4].facing, Facing::Left);
    assert_eq!(headings[5].facing, Facing::Right);
    assert_eq!(headings[0].velocity.0, v(60_000, 0));
}

#[test]
fn a_velocity_starts_at_rest() {
    assert_eq!(Velocity::default().0, v(0, 0));
}

//! Predators: the hunt, the meal and the rest after it.

use vstd::prelude::*;
use crate::entity::Entity;
use crate::fixed::{div_toward_zero, floor_sqrt, isqrt, lemma_div_toward_zero_bounds,
    lemma_product_bound, quotient, saturate_i32};
use crate::life_cycles::earlier;
use crate::movement::{avoiding_edge, compute_speed_change, is_avoiding_edge, speed_change,
    Velocity, Window};
use crate::target::{closest_target, find_closest_target, Target};
use crate::vec2::{lemma_len2_zero, lemma_roots_bracket, Vec2};

verus! {

/// Squared radius within which a predator sees its prey.
pub const THREAT_VISIBILITY_RADIUS_2: i64 = 2_102_500_000_000;

/// Acceleration toward the closest prey.
pub const TOWARDS_CLOSEST_DUCK_FACTOR: u32 = 300_000;

/// Deceleration of a predator that sees no prey.
pub const DECELERATION_FACTOR: u32 = 150_000;

/// Squared radius within which a predator eats its prey.
pub const THREAT_EATING_RADIUS_2: i64 = 900_000_000;

/// The rest a predator takes after a meal.
pub const THREAT_EATING_COOLDOWN_DURATION: i32 = 2_000;

/// The speed above which a predator is shown running.
pub const RUNNING_SPEED: i32 = 100_000;

/// What makes an agent a predator: the rest left after its last meal, and
/// whether it is shown running.
#[derive(Clone, Copy, Debug)]
pub struct Threat {
    pub eating_cooldown: i32,
    pub running: bool,
}

impl Default for Threat {
    fn default() -> (threat: Threat)
        ensures
            threat.eating_cooldown == 0,
            !threat.running,
    {
        Threat { eating_cooldown: 0, running: false }
    }
}

/// A predator as the hunt sees it.
#[derive(Clone, Copy, Debug)]
pub struct Predator {
    pub position: Vec2,
    pub velocity: Velocity,
    pub threat: Threat,
}

/// The tunables of the hunt.
#[derive(Clone, Copy, Debug)]
pub struct ThreatConfig {
    pub threat_visibility_radius_2: i64,
    pub towards_closest_duck_factor: u32,
    pub deceleration_factor: u32,
    pub threat_eating_radius_2: i64,
    pub threat_eating_cooldown_duration: i32,
    pub edge_margin: i32,
}

impl Default for ThreatConfig {
    fn default() -> (config: ThreatConfig)
        ensures
            config.threat_visibility_radius_2 == THREAT_VISIBILITY_RADIUS_2,
            config.towards_closest_duck_factor == TOWARDS_CLOSEST_DUCK_FACTOR,
            config.deceleration_factor == DECELERATION_FACTOR,
            config.threat_eating_radius_2 == THREAT_EATING_RADIUS_2,
            config.threat_eating_cooldown_duration == THREAT_EATING_COOLDOWN_DURATION,
            config.edge_margin == crate::movement::EDGE_MARGIN,
    {
        ThreatConfig {
            threat_visibility_radius_2: THREAT_VISIBILITY_RADIUS_2,
            towards_closest_duck_factor: TOWARDS_CLOSEST_DUCK_FACTOR,
            deceleration_factor: DECELERATION_FACTOR,
            threat_eating_radius_2: THREAT_EATING_RADIUS_2,
            threat_eating_cooldown_duration: THREAT_EATING_COOLDOWN_DURATION,
            edge_margin: crate::movement::EDGE_MARGIN,
        }
    }
}

/// `v` slowed down by `amount`, along its own direction and not past rest.
pub open spec fn slowed(v: Vec2, amount: int) -> Vec2 {
    if v.exact().len2() == 0 {
        v
    } else {
        let length = floor_sqrt(v.exact().len2());
        let rest = if length > amount {
            length - amount
        } else {
            0
        };
        Vec2 {
            x: div_toward_zero(v.x * rest, length) as i32,
            y: div_toward_zero(v.y * rest, length) as i32,
        }
    }
}

/// Slowing down never reverses a direction and never speeds up: each
/// coordinate keeps its sign and does not grow.
pub proof fn lemma_slowed_keeps_direction(v: Vec2, amount: int)
    requires
        amount >= 0,
    ensures
        v.x >= 0 ==> 0 <= slowed(v, amount).x <= v.x,
        v.x <= 0 ==> v.x <= slowed(v, amount).x <= 0,
        v.y >= 0 ==> 0 <= slowed(v, amount).y <= v.y,
        v.y <= 0 ==> v.y <= slowed(v, amount).y <= 0,
{
    lemma_len2_zero(v.exact());
    if v.exact().len2() != 0 {
        lemma_roots_bracket(v.exact().len2());
        let length = floor_sqrt(v.exact().len2());
        let rest = if length > amount {
            length - amount
        } else {
            0
        };
        lemma_part_bounds(v.x as int, rest, length);
        lemma_part_bounds(v.y as int, rest, length);
    }
}

/// The share `rest / length` of `c` lies between zero and `c`.
proof fn lemma_part_bounds(c: int, rest: int, length: int)
    by (nonlinear_arith)
    requires
        0 <= rest <= length,
        length > 0,
    ensures
        c >= 0 ==> 0 <= div_toward_zero(c * rest, length) <= c,
        c <= 0 ==> c <= div_toward_zero(c * rest, length) <= 0,
{
    lemma_div_toward_zero_bounds(c * rest, length);
}

/// Slows `v` down by `amount`, along its own direction and not past rest.
fn slow_down(v: Vec2, amount: i128) -> (r: Vec2)
    requires
        0 <= amount,
    ensures
        r == slowed(v, amount as int),
{
    let n = v.length_squared();
    if n == 0 {
        return v;
    }
    let length = isqrt(n);
    proof {
        lemma_roots_bracket(n as int);
    }
    let rest = if length > amount {
        length - amount
    } else {
        0
    };
    proof {
        lemma_product_bound(v.x as int, rest as int, 0x8000_0000, 0x2_0000_0000);
        lemma_product_bound(v.y as int, rest as int, 0x8000_0000, 0x2_0000_0000);
        lemma_part_bounds(v.x as int, rest as int, length as int);
        lemma_part_bounds(v.y as int, rest as int, length as int);
    }
    Vec2 {
        x: quotient((v.x as i128) * rest, length) as i32,
        y: quotient((v.y as i128) * rest, length) as i32,
    }
}

/// What a predator does in a tick of `dt`. Its rest runs down first. With prey
/// in sight, it eats the closest if that is within the eating radius and the
/// rest is over, and then rests anew; otherwise it steers toward it. With no
/// prey in sight it slows down, unless it is turning back from a border of the
/// arena or there is no arena.
pub open spec fn hunted(
    before: Predator,
    ducks: Seq<Target>,
    window: Option<Window>,
    dt: u32,
    config: ThreatConfig,
) -> Predator {
    let cooldown = earlier(before.threat.eating_cooldown, dt);
    match closest_target(before.position, ducks, config.threat_visibility_radius_2 as int) {
        Some(k) => {
            if before.position.dist2(ducks[k].position) <= config.threat_eating_radius_2
                && cooldown <= 0 {
                Predator {
                    position: before.position,
                    velocity: before.velocity,
                    threat: Threat {
                        eating_cooldown: config.threat_eating_cooldown_duration,
                        running: before.threat.running,
                    },
                }
            } else {
                Predator {
                    position: before.position,
                    velocity: Velocity(
                        before.velocity.0.moved_by(
                            before.position.to(ducks[k].position).shrunk_to(
                                speed_change(config.towards_closest_duck_factor, dt),
                            ),
                        ),
                    ),
                    threat: Threat { eating_cooldown: cooldown, running: before.threat.running },
                }
            }
        },
        None => {
            Predator {
                position: before.position,
                velocity: if window matches Some(w) && !avoiding_edge(
                    before.position,
                    w,
                    config.edge_margin,
                ) {
                    Velocity(
                        slowed(before.velocity.0, speed_change(config.deceleration_factor, dt)),
                    )
                } else {
                    before.velocity
                },
                threat: Threat { eating_cooldown: cooldown, running: before.threat.running },
            }
        },
    }
}

/// The prey that a predator eats in a tick of `dt`: the closest in sight, if
/// it is within the eating radius and the predator's rest is over.
pub open spec fn prey_of(before: Predator, ducks: Seq<Target>, dt: u32, config: ThreatConfig)
    -> Option<Entity> {
    match closest_target(before.position, ducks, config.threat_visibility_radius_2 as int) {
        Some(k) => {
            if before.position.dist2(ducks[k].position) <= config.threat_eating_radius_2
                && earlier(before.threat.eating_cooldown, dt) <= 0 {
                Some(ducks[k].entity)
            } else {
                None
            }
        },
        None => None,
    }
}

/// A predator that still rests after this tick's run-down eats nothing,
/// however close its prey.
pub proof fn lemma_resting_predator_spares(
    before: Predator,
    ducks: Seq<Target>,
    dt: u32,
    config: ThreatConfig,
)
    requires
        before.threat.eating_cooldown - dt > 0,
    ensures
        prey_of(before, ducks, dt, config) is None,
{
}

/// Lets one predator hunt for a tick of `dt`; returns its prey, if it eats.
pub fn hunt(
    predator: &mut Predator,
    ducks: &Vec<Target>,
    window: Option<Window>,
    dt: u32,
    config: &ThreatConfig,
) -> (prey: Option<Entity>)
    ensures
        *final(predator) == hunted(*old(predator), ducks@, window, dt, *config),
        prey == prey_of(*old(predator), ducks@, dt, *config),
{
    let cooldown = saturate_i32(predator.threat.eating_cooldown as i128 - dt as i128);
    predator.threat.eating_cooldown = cooldown;
    let closest = find_closest_target(predator.position, ducks, config.threat_visibility_radius_2);
    match closest {
        Some(k) => {
            let duck = ducks[k];
            if predator.position.distance_squared(&duck.position)
                <= config.threat_eating_radius_2 as i128 && cooldown <= 0 {
                predator.threat.eating_cooldown = config.threat_eating_cooldown_duration;
                Some(duck.entity)
            } else {
                let speed = compute_speed_change(config.towards_closest_duck_factor, dt);
                let push = predator.position.offset_to(&duck.position).shrunk_to(speed);
                predator.velocity = Velocity(predator.velocity.0.shifted(&push));
                None
            }
        },
        None => {
            match window {
                Some(w) => {
                    if !is_avoiding_edge(predator.position, &w, config.edge_margin) {
                        let amount = compute_speed_change(config.deceleration_factor, dt);
                        predator.velocity = Velocity(slow_down(predator.velocity.0, amount));
                    }
                },
                None => {},
            }
            None
        },
    }
}

/// Lets every predator hunt for a tick of `dt`. Returns, predator by predator,
/// the prey it ate. Prey that one predator ate is still seen by the predators
/// after it: two predators may report the same prey.
pub fn system_boid_towards_closest_duck(
    dt: u32,
    ducks: &Vec<Target>,
    threats: &mut Vec<Predator>,
    window: Option<Window>,
    config: &ThreatConfig,
) -> (eaten: Vec<Option<Entity>>)
    ensures
        final(threats)@.len() == old(threats)@.len(),
        eaten@.len() == old(threats)@.len(),
        forall|i: int|
            0 <= i < old(threats)@.len() ==> ({
                &&& #[trigger] final(threats)@[i] == hunted(
                    old(threats)@[i],
                    ducks@,
                    window,
                    dt,
                    *config,
                )
                &&& eaten@[i] == prey_of(old(threats)@[i], ducks@, dt, *config)
            }),
{
    let n = threats.len();
    let mut eaten: Vec<Option<Entity>> = Vec::new();
    let mut i: usize = 0;
    while i < n
        invariant
            i <= n,
            n == threats@.len(),
            n == old(threats)@.len(),
            eaten@.len() == i,
            forall|k: int| i <= k < n ==> #[trigger] threats@[k] == old(threats)@[k],
            forall|k: int|
                0 <= k < i ==> ({
                    &&& #[trigger] threats@[k] == hunted(
                        old(threats)@[k],
                        ducks@,
                        window,
                        dt,
                        *config,
                    )
                    &&& eaten@[k] == prey_of(old(threats)@[k], ducks@, dt, *config)
                }),
        decreases n - i,
    {
        let mut predator = threats[i];
        let prey = hunt(&mut predator, ducks, window, dt, config);
        threats[i] = predator;
        eaten.push(prey);
        i += 1;
    }
    eaten
}

/// The way a predator is shown moving.
#[derive(Clone, Copy, PartialEq, Eq, Structural, Debug)]
pub enum Gait {
    Walking,
    Running,
}

/// The frames of an animation and the time each frame stays.
#[derive(Clone, Copy, PartialEq, Eq, Structural, Debug)]
pub struct Animation {
    pub first_frame: usize,
    pub last_frame: usize,
    pub frame_seconds: i32,
}

/// The animation of a gait.
pub open spec fn gait_animation(gait: Gait) -> Animation {
    match gait {
        Gait::Walking => Animation { first_frame: 0, last_frame: 3, frame_seconds: 1500 },
        Gait::Running => Animation { first_frame: 0, last_frame: 7, frame_seconds: 150 },
    }
}

/// The animation of a gait.
pub fn animation_of(gait: Gait) -> (animation: Animation)
    ensures
        animation == gait_animation(gait),
{
    match gait {
        Gait::Walking => Animation { first_frame: 0, last_frame: 3, frame_seconds: 1500 },
        Gait::Running => Animation { first_frame: 0, last_frame: 7, frame_seconds: 150 },
    }
}

/// Whether a predator at this velocity is faster than the running speed.
pub open spec fn is_fast(velocity: Velocity, running_speed: i32) -> bool {
    running_speed < 0 || velocity.0.exact().len2() > running_speed * running_speed
}

/// The gait a predator changes to, if its speed no longer fits the gait it is
/// shown in.
pub open spec fn gait_change(predator: Predator, running_speed: i32) -> Option<Gait> {
    if is_fast(predator.velocity, running_speed) {
        if predator.threat.running {
            None
        } else {
            Some(Gait::Running)
        }
    } else if predator.threat.running {
        Some(Gait::Walking)
    } else {
        None
    }
}

/// Shows every predator running when it is faster than the running speed and
/// walking when it is not. Returns, predator by predator, the gait it changes
/// to, if it changes.
pub fn system_update_threat_animation(threats: &mut Vec<Predator>, running_speed: i32) -> (changes:
    Vec<Option<Gait>>)
    ensures
        final(threats)@.len() == old(threats)@.len(),
        changes@.len() == old(threats)@.len(),
        forall|i: int|
            0 <= i < old(threats)@.len() ==> ({
                &&& (#[trigger] final(threats)@[i]).position == old(threats)@[i].position
                &&& final(threats)@[i].velocity == old(threats)@[i].velocity
                &&& final(threats)@[i].threat.eating_cooldown
                    == old(threats)@[i].threat.eating_cooldown
                &&& final(threats)@[i].threat.running == is_fast(
                    old(threats)@[i].velocity,
                    running_speed,
                )
                &&& changes@[i] == gait_change(old(threats)@[i], running_speed)
            }),
{
    let n = threats.len();
    let mut changes: Vec<Option<Gait>> = Vec::new();
    let mut i: usize = 0;
    while i < n
        invariant
            i <= n,
            n == threats@.len(),
            n == old(threats)@.len(),
            changes@.len() == i,
            forall|k: int| i <= k < n ==> #[trigger] threats@[k] == old(threats)@[k],
            forall|k: int|
                0 <= k < i ==> ({
                    &&& (#[trigger] threats@[k]).position == old(threats)@[k].position
                    &&& threats@[k].velocity == old(threats)@[k].velocity
                    &&& threats@[k].threat.eating_cooldown
                        == old(threats)@[k].threat.eating_cooldown
                    &&& threats@[k].threat.running == is_fast(
                        old(threats)@[k].velocity,
                        running_speed,
                    )
                    &&& changes@[k] == gait_change(old(threats)@[k], running_speed)
                }),
        decreases n - i,
    {
        let predator = threats[i];
        proof {
            lemma_product_bound(
                running_speed as int,
                running_speed as int,
                0x8000_0000,
                0x8000_0000,
            );
        }
        let fast = running_speed < 0 || predator.velocity.0.length_squared() > (
        running_speed as i128) * (running_speed as i128);
        let mut change: Option<Gait> = None;
        if fast {
            if !predator.threat.running {
                threats[i].threat.running = true;
                change = Some(Gait::Running);
            }
        } else if predator.threat.running {
            threats[i].threat.running = false;
            change = Some(Gait::Walking);
        }
        changes.push(change);
        i += 1;
    }
    changes
}

} // verus!

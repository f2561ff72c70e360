//! What new agents start with.

use vstd::prelude::*;
use crate::fixed::{div_toward_zero, lemma_div_toward_zero_bounds, lemma_product_bound, quotient,
    saturate, saturate_i32};
use crate::life_cycles::{appearance_of, draw_duration, drawn_duration, stage_appearance, Appearance,
    LifeCycleConfig, LifeCycleTime, Stage, SAMPLE_RANGE};
use crate::movement::{Velocity, VelocityLimits, Window};
use crate::random::random_sample;
use crate::threat_boid::Threat;
use crate::vec2::Vec2;

verus! {

/// How many ducks there are to each predator before another one comes.
pub const DUCKS_PER_THREAT: i32 = 15;

/// How far outside the arena a new predator appears.
pub const THREAT_SPAWN_BUFFER: i32 = 50_000;

/// The number of eggs a game starts with.
pub const INITIAL_BOIDS: usize = 10;

/// The number of predators a game starts with.
pub const INITIAL_THREATS: usize = 2;

/// The width of the area in which a game's first agents appear.
pub const SPAWN_WIDTH: i32 = 800_000;

/// The height of the area in which a game's first agents appear.
pub const SPAWN_HEIGHT: i32 = 600_000;

/// The number of looks a predator can have, the tabby aside.
pub const CAT_VARIATIONS: u32 = 4;

/// The number of looks food can have.
pub const FOOD_VARIATIONS: u32 = 4;

/// The greatest speed of a predator.
pub const THREAT_MAX_VELOCITY: i32 = 200_000;

/// The number of predators in the game.
#[derive(Clone, Copy, Debug)]
pub struct CurrentThreats(pub i32);

impl Default for CurrentThreats {
    fn default() -> (threats: CurrentThreats)
        ensures
            threats.0 == 0,
    {
        CurrentThreats(0)
    }
}

/// An egg that is to be put into the world.
#[derive(Clone, Copy, Debug)]
pub struct NewEgg {
    pub position: Vec2,
    pub time: LifeCycleTime,
    pub appearance: Appearance,
}

/// The egg that `sample` picks: it hatches after a time between the least and
/// the greatest hatching time.
pub open spec fn drawn_egg(position: Vec2, sample: u32, config: LifeCycleConfig) -> NewEgg {
    NewEgg {
        position,
        time: LifeCycleTime(
            drawn_duration(config.egg_hatch_time_min, config.egg_hatch_time_max, sample),
        ),
        appearance: stage_appearance(Stage::Egg),
    }
}

/// Makes the egg that is to appear at `position`, with the hatching time that
/// `sample` picks.
pub fn spawn_boid(position: Vec2, sample: u32, config: &LifeCycleConfig) -> (egg: NewEgg)
    ensures
        egg == drawn_egg(position, sample, *config),
        config.egg_hatch_time_min <= config.egg_hatch_time_max ==> config.egg_hatch_time_min
            <= egg.time.0 <= config.egg_hatch_time_max,
{
    NewEgg {
        position,
        time: LifeCycleTime(
            draw_duration(config.egg_hatch_time_min, config.egg_hatch_time_max, sample),
        ),
        appearance: appearance_of(Stage::Egg),
    }
}

/// The share `sample / SAMPLE_RANGE` of `extent`, measured from the middle of
/// the extent.
pub open spec fn drawn_coordinate(sample: u32, extent: i32) -> i32 {
    (div_toward_zero(extent * sample, SAMPLE_RANGE as int) - div_toward_zero(extent as int, 2)) as i32
}

/// The place in the starting area that two samples pick.
pub open spec fn drawn_spawn_position(x_sample: u32, y_sample: u32) -> Vec2 {
    Vec2 { x: drawn_coordinate(x_sample, SPAWN_WIDTH), y: drawn_coordinate(y_sample, SPAWN_HEIGHT) }
}

/// The share of a non-negative extent that a sample picks lies within the
/// extent.
proof fn lemma_share_of_extent(extent: int, sample: int, range: int)
    by (nonlinear_arith)
    requires
        0 <= sample < range,
        extent >= 0,
    ensures
        0 <= div_toward_zero(extent * sample, range) <= extent,
{
    lemma_div_toward_zero_bounds(extent * sample, range);
}

/// Picks a coordinate within an extent centred on zero.
fn draw_coordinate(sample: u32, extent: i32) -> (c: i32)
    requires
        extent >= 0,
    ensures
        c == drawn_coordinate(sample, extent),
        -div_toward_zero(extent as int, 2) <= c <= extent - div_toward_zero(extent as int, 2),
{
    proof {
        lemma_share_of_extent(extent as int, sample as int, SAMPLE_RANGE as int);
        lemma_product_bound(extent as int, sample as int, 0x8000_0000, 0x1_0000_0000);
    }
    let share = quotient((extent as i128) * (sample as i128), SAMPLE_RANGE);
    (share - (extent / 2) as i128) as i32
}

/// Picks the place in the starting area that two samples stand for.
pub fn draw_spawn_position(x_sample: u32, y_sample: u32) -> (position: Vec2)
    ensures
        position == drawn_spawn_position(x_sample, y_sample),
        -400_000 <= position.x <= 400_000,
        -300_000 <= position.y <= 300_000,
{
    Vec2 { x: draw_coordinate(x_sample, SPAWN_WIDTH), y: draw_coordinate(y_sample, SPAWN_HEIGHT) }
}

/// Whether `egg` is an egg that some samples pick in the starting area.
pub open spec fn is_starting_egg(egg: NewEgg, config: LifeCycleConfig) -> bool {
    exists|x_sample: u32, y_sample: u32, sample: u32|
        egg == #[trigger] drawn_egg(drawn_spawn_position(x_sample, y_sample), sample, config)
}

/// Makes the eggs a game starts with, each at a place and with a hatching
/// time drawn by chance.
pub fn system_spawn_boids(config: &LifeCycleConfig) -> (eggs: Vec<NewEgg>)
    ensures
        eggs@.len() == INITIAL_BOIDS,
        forall|i: int| 0 <= i < eggs@.len() ==> is_starting_egg(#[trigger] eggs@[i], *config),
{
    let mut eggs: Vec<NewEgg> = Vec::new();
    let mut i: usize = 0;
    while i < INITIAL_BOIDS
        invariant
            i <= INITIAL_BOIDS,
            eggs@.len() == i,
            forall|k: int| 0 <= k < i ==> is_starting_egg(#[trigger] eggs@[k], *config),
        decreases INITIAL_BOIDS - i,
    {
        let x_sample = random_sample();
        let y_sample = random_sample();
        let sample = random_sample();
        let egg = spawn_boid(draw_spawn_position(x_sample, y_sample), sample, config);
        proof {
            assert(egg == drawn_egg(drawn_spawn_position(x_sample, y_sample), sample, *config));
        }
        eggs.push(egg);
        i += 1;
    }
    eggs
}

/// The look of a predator.
#[derive(Clone, Copy, PartialEq, Eq, Structural, Debug)]
pub enum ThreatSprite {
    Tabby,
    Variation(u32),
}

/// A predator that is to be put into the world.
#[derive(Clone, Copy, Debug)]
pub struct NewThreat {
    pub position: Vec2,
    pub sprite: ThreatSprite,
    pub animation_start_index: u32,
    pub frame_seconds: i32,
    pub threat: Threat,
    pub velocity: Velocity,
    pub limits: VelocityLimits,
}

/// The predator that the samples pick: at rest, hungry and walking, with a
/// frame of its walk to start at, a time between one and one and a half
/// seconds per frame, and one of the looks unless it is the tabby.
pub open spec fn drawn_threat(
    position: Vec2,
    tabby: bool,
    start_sample: u32,
    timer_sample: u32,
    sprite_sample: u32,
) -> NewThreat {
    NewThreat {
        position,
        sprite: if tabby {
            ThreatSprite::Tabby
        } else {
            ThreatSprite::Variation(sprite_sample % CAT_VARIATIONS)
        },
        animation_start_index: start_sample % 4,
        frame_seconds: drawn_duration(1000, 1500, timer_sample),
        threat: Threat { eating_cooldown: 0, running: false },
        velocity: Velocity(Vec2::zero_vector()),
        limits: VelocityLimits { min: 0, max: THREAT_MAX_VELOCITY },
    }
}

/// Makes the predator that is to appear at `position` and counts it.
pub fn spawn_threat(
    position: Vec2,
    current_threats: &mut CurrentThreats,
    tabby: bool,
    start_sample: u32,
    timer_sample: u32,
    sprite_sample: u32,
) -> (threat: NewThreat)
    ensures
        final(current_threats).0 == saturate(old(current_threats).0 + 1),
        threat == drawn_threat(position, tabby, start_sample, timer_sample, sprite_sample),
        threat.limits.wf(),
{
    current_threats.0 = saturate_i32(current_threats.0 as i128 + 1);
    NewThreat {
        position,
        sprite: if tabby {
            ThreatSprite::Tabby
        } else {
            ThreatSprite::Variation(sprite_sample % CAT_VARIATIONS)
        },
        animation_start_index: start_sample % 4,
        frame_seconds: draw_duration(1000, 1500, timer_sample),
        threat: Threat { eating_cooldown: 0, running: false },
        velocity: Velocity(Vec2::zero()),
        limits: VelocityLimits { min: 0, max: THREAT_MAX_VELOCITY },
    }
}

/// Whether `threat` is a predator that some samples pick in the starting
/// area.
pub open spec fn is_starting_threat(threat: NewThreat, tabby: bool) -> bool {
    exists|x_sample: u32, y_sample: u32, start_sample: u32, timer_sample: u32, sprite_sample: u32|
        threat == #[trigger] drawn_threat(
            drawn_spawn_position(x_sample, y_sample),
            tabby,
            start_sample,
            timer_sample,
            sprite_sample,
        )
}

/// Makes the predators a game starts with, the first of them the tabby, and
/// counts them.
pub fn system_spawn_threats(current_threats: &mut CurrentThreats) -> (threats: Vec<NewThreat>)
    ensures
        threats@.len() == INITIAL_THREATS,
        forall|i: int|
            0 <= i < threats@.len() ==> is_starting_threat(#[trigger] threats@[i], i == 0),
        final(current_threats).0 == saturate(old(current_threats).0 + INITIAL_THREATS),
{
    let mut threats: Vec<NewThreat> = Vec::new();
    let mut i: usize = 0;
    while i < INITIAL_THREATS
        invariant
            i <= INITIAL_THREATS,
            threats@.len() == i,
            forall|k: int| 0 <= k < i ==> is_starting_threat(#[trigger] threats@[k], k == 0),
            current_threats.0 == saturate(old(current_threats).0 + i),
        decreases INITIAL_THREATS - i,
    {
        let x_sample = random_sample();
        let y_sample = random_sample();
        let start_sample = random_sample();
        let timer_sample = random_sample();
        let sprite_sample = random_sample();
        let threat = spawn_threat(
            draw_spawn_position(x_sample, y_sample),
            current_threats,
            i == 0,
            start_sample,
            timer_sample,
            sprite_sample,
        );
        proof {
            assert(threat == drawn_threat(
                drawn_spawn_position(x_sample, y_sample),
                i == 0,
                start_sample,
                timer_sample,
                sprite_sample,
            ));
        }
        threats.push(threat);
        i += 1;
    }
    threats
}

/// Whether the ducks have grown too many for the predators there are.
pub open spec fn wants_more_threats(current_threats: CurrentThreats, duck_count: usize) -> bool {
    current_threats.0 * DUCKS_PER_THREAT < duck_count
}

/// How far from the middle of the arena a new predator appears, if one is to
/// come: just outside half the width of the window, whenever the ducks have
/// grown too many for the predators there are. Without a window none comes.
pub fn system_continuous_threat_spawning(
    current_threats: &CurrentThreats,
    window: Option<Window>,
    duck_count: usize,
) -> (radius: Option<i32>)
    ensures
        radius is Some <==> window is Some && wants_more_threats(*current_threats, duck_count),
        radius matches Some(r) ==> r == saturate(
            div_toward_zero(window.unwrap().width as int, 2) + THREAT_SPAWN_BUFFER,
        ),
{
    match window {
        Some(w) => {
            if (current_threats.0 as i128) * (DUCKS_PER_THREAT as i128) < duck_count as i128 {
                Some(saturate_i32((w.width / 2) as i128 + THREAT_SPAWN_BUFFER as i128))
            } else {
                None
            }
        },
        None => None,
    }
}

/// Food that is to be put into the world.
#[derive(Clone, Copy, Debug)]
pub struct NewFood {
    pub position: Vec2,
    pub sprite_index: u32,
}

/// Makes the food that is to appear at `position`, with the look that
/// `sample` picks.
pub fn spawn_food(position: Vec2, sample: u32) -> (food: NewFood)
    ensures
        food.position == position,
        food.sprite_index == sample % FOOD_VARIATIONS,
{
    NewFood { position, sprite_index: sample % FOOD_VARIATIONS }
}

/// The sign of a pair that is to be put into the world.
#[derive(Clone, Copy, Debug)]
pub struct NewSign {
    pub position: Vec2,
    pub appearance: Appearance,
}

/// How the sign of a pair is shown: in front of the ducks, at half its size,
/// in four frames of a quarter of a second each.
pub open spec fn sign_appearance() -> Appearance {
    Appearance { z_value: 5000, scale: 500, first_frame: 0, last_frame: 3, frame_seconds: 250 }
}

/// Makes the sign that is to appear over a pair at `position`.
pub fn spawn_relationship_sprite(position: Vec2) -> (sign: NewSign)
    ensures
        sign.position == position,
        sign.appearance == sign_appearance(),
{
    NewSign {
        position,
        appearance: Appearance {
            z_value: 5000,
            scale: 500,
            first_frame: 0,
            last_frame: 3,
            frame_seconds: 250,
        },
    }
}

} // verus!

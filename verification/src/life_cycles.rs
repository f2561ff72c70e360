//! Ageing: the timers that carry a duck from egg to adult.

use vstd::prelude::*;
use crate::breeding::BreedingProgress;
use crate::duck_boid::CloseAdults;
use crate::entity::Entity;
use crate::fixed::{div_toward_zero, lemma_div_toward_zero_bounds, lemma_product_bound, quotient,
    saturate, saturate_i32};
use crate::movement::{within_limits, Velocity, VelocityLimits, MAX_VELOCITY, MIN_VELOCITY};
use crate::player::PlayerStats;
use crate::random::random_sample;
use crate::vec2::{lemma_len2_zero, lemma_stretched_reaches, lemma_stretched_within, Offset, Vec2,
    Wide};

verus! {

/// Stretches every stage of life and the breeding time.
pub const TIME_FACTOR: i32 = 1000;

/// The shortest time an egg takes to hatch.
pub const EGG_HATCH_TIME_MIN: i32 = 5 * TIME_FACTOR;

/// The longest time an egg takes to hatch.
pub const EGG_HATCH_TIME_MAX: i32 = 15 * TIME_FACTOR;

/// The shortest time a duckling takes to grow into a juvenile.
pub const DUCKLING_TO_JUVENILE_TIME_MIN: i32 = 10 * TIME_FACTOR;

/// The longest time a duckling takes to grow into a juvenile.
pub const DUCKLING_TO_JUVENILE_TIME_MAX: i32 = 30 * TIME_FACTOR;

/// The shortest time a juvenile takes to grow up.
pub const JUVENILE_TO_ADULT_TIME_MIN: i32 = 8 * TIME_FACTOR;

/// The longest time a juvenile takes to grow up.
pub const JUVENILE_TO_ADULT_TIME_MAX: i32 = 15 * TIME_FACTOR;

/// The number of values a sample can take.
pub const SAMPLE_RANGE: i128 = 0x1_0000_0000;

/// The stages of a duck's life, in order.
#[derive(Clone, Copy, PartialEq, Eq, Structural, Debug)]
pub enum Stage {
    Egg,
    Duckling,
    Juvenile,
    Adult,
}

/// The time until a duck enters the next stage of its life.
#[derive(Clone, Copy, Debug)]
pub struct LifeCycleTime(pub i32);

impl Default for LifeCycleTime {
    fn default() -> (time: LifeCycleTime)
        ensures
            time.0 == 0,
    {
        LifeCycleTime(0)
    }
}

/// A duck as the life cycle sees it.
#[derive(Clone, Copy, Debug)]
pub struct Duck {
    pub entity: Entity,
    pub stage: Stage,
    pub time: LifeCycleTime,
}

/// How long each stage of life lasts, at least and at most.
#[derive(Clone, Copy, Debug)]
pub struct LifeCycleConfig {
    pub egg_hatch_time_min: i32,
    pub egg_hatch_time_max: i32,
    pub duckling_to_juvenile_time_min: i32,
    pub duckling_to_juvenile_time_max: i32,
    pub juvenile_to_adult_time_min: i32,
    pub juvenile_to_adult_time_max: i32,
}

impl Default for LifeCycleConfig {
    fn default() -> (config: LifeCycleConfig)
        ensures
            config.egg_hatch_time_min == EGG_HATCH_TIME_MIN,
            config.egg_hatch_time_max == EGG_HATCH_TIME_MAX,
            config.duckling_to_juvenile_time_min == DUCKLING_TO_JUVENILE_TIME_MIN,
            config.duckling_to_juvenile_time_max == DUCKLING_TO_JUVENILE_TIME_MAX,
            config.juvenile_to_adult_time_min == JUVENILE_TO_ADULT_TIME_MIN,
            config.juvenile_to_adult_time_max == JUVENILE_TO_ADULT_TIME_MAX,
    {
        LifeCycleConfig {
            egg_hatch_time_min: EGG_HATCH_TIME_MIN,
            egg_hatch_time_max: EGG_HATCH_TIME_MAX,
            duckling_to_juvenile_time_min: DUCKLING_TO_JUVENILE_TIME_MIN,
            duckling_to_juvenile_time_max: DUCKLING_TO_JUVENILE_TIME_MAX,
            juvenile_to_adult_time_min: JUVENILE_TO_ADULT_TIME_MIN,
            juvenile_to_adult_time_max: JUVENILE_TO_ADULT_TIME_MAX,
        }
    }
}

/// How a duck of a stage is shown: its layer, its size, the frames of its
/// animation and the time each frame stays.
#[derive(Clone, Copy, PartialEq, Eq, Structural, Debug)]
pub struct Appearance {
    pub z_value: i32,
    pub scale: i32,
    pub first_frame: usize,
    pub last_frame: usize,
    pub frame_seconds: i32,
}

/// How a duck of the given stage is shown.
pub open spec fn stage_appearance(stage: Stage) -> Appearance {
    match stage {
        Stage::Egg => Appearance {
            z_value: (-1000) as i32,
            scale: 500,
            first_frame: 0,
            last_frame: 0,
            frame_seconds: 250,
        },
        Stage::Duckling => Appearance {
            z_value: 0,
            scale: 1250,
            first_frame: 0,
            last_frame: 3,
            frame_seconds: 100,
        },
        Stage::Juvenile => Appearance {
            z_value: 1000,
            scale: 1500,
            first_frame: 0,
            last_frame: 3,
            frame_seconds: 150,
        },
        Stage::Adult => Appearance {
            z_value: 2000,
            scale: 2000,
            first_frame: 0,
            last_frame: 3,
            frame_seconds: 200,
        },
    }
}

/// How a duck of the given stage is shown.
pub fn appearance_of(stage: Stage) -> (appearance: Appearance)
    ensures
        appearance == stage_appearance(stage),
{
    match stage {
        Stage::Egg => Appearance {
            z_value: -1000,
            scale: 500,
            first_frame: 0,
            last_frame: 0,
            frame_seconds: 250,
        },
        Stage::Duckling => Appearance {
            z_value: 0,
            scale: 1250,
            first_frame: 0,
            last_frame: 3,
            frame_seconds: 100,
        },
        Stage::Juvenile => Appearance {
            z_value: 1000,
            scale: 1500,
            first_frame: 0,
            last_frame: 3,
            frame_seconds: 150,
        },
        Stage::Adult => Appearance {
            z_value: 2000,
            scale: 2000,
            first_frame: 0,
            last_frame: 3,
            frame_seconds: 200,
        },
    }
}

/// What a duck of a stage takes part in.
#[derive(Clone, Copy, PartialEq, Eq, Structural, Debug)]
pub struct Capabilities {
    /// It moves on its own and flocks.
    pub boid: bool,
    /// It follows the adults.
    pub follows_adults: bool,
    /// It can be one of a pair, and keeps track of the adults close to it.
    pub mates: bool,
    /// Predators hunt it.
    pub prey: bool,
}

/// What a duck of the given stage takes part in: an egg in nothing; every
/// other stage flocks and is hunted; ducklings follow the adults; adults mate.
pub open spec fn stage_capabilities(stage: Stage) -> Capabilities {
    Capabilities {
        boid: stage != Stage::Egg,
        follows_adults: stage == Stage::Duckling,
        mates: stage == Stage::Adult,
        prey: stage != Stage::Egg,
    }
}

/// What a duck of the given stage takes part in.
pub fn capabilities_of(stage: Stage) -> (capabilities: Capabilities)
    ensures
        capabilities == stage_capabilities(stage),
{
    match stage {
        Stage::Egg => Capabilities { boid: false, follows_adults: false, mates: false, prey: false },
        Stage::Duckling => Capabilities {
            boid: true,
            follows_adults: true,
            mates: false,
            prey: true,
        },
        Stage::Juvenile => Capabilities {
            boid: true,
            follows_adults: false,
            mates: false,
            prey: true,
        },
        Stage::Adult => Capabilities { boid: true, follows_adults: false, mates: true, prey: true },
    }
}

/// `time` after `dt` more seconds have passed, clamped into the stored range.
pub open spec fn earlier(time: i32, dt: u32) -> i32 {
    saturate(time - dt) as i32
}

/// What is left of `time` after each of the spans of `dts` has passed in
/// turn.
pub open spec fn time_left(time: i32, dts: Seq<u32>) -> i32
    decreases dts.len(),
{
    if dts.len() == 0 {
        time
    } else {
        earlier(time_left(time, dts.drop_last()), dts.last())
    }
}

/// The sum of the spans of `dts`.
pub open spec fn elapsed(dts: Seq<u32>) -> int
    decreases dts.len(),
{
    if dts.len() == 0 {
        0
    } else {
        elapsed(dts.drop_last()) + dts.last()
    }
}

/// A timer has run out exactly when as much time has passed as it was set
/// to, and never before.
pub proof fn lemma_timer_runs_out(time: i32, dts: Seq<u32>)
    ensures
        time_left(time, dts) == saturate(time - elapsed(dts)),
        time_left(time, dts) <= 0 <==> elapsed(dts) >= time,
        elapsed(dts) >= 0,
    decreases dts.len(),
{
    if dts.len() > 0 {
        lemma_timer_runs_out(time, dts.drop_last());
    }
}

/// Lets `dt` seconds pass on the timer of every duck.
pub fn system_decrease_lifecycle_time(dt: u32, ducks: &mut Vec<Duck>)
    ensures
        final(ducks)@.len() == old(ducks)@.len(),
        forall|i: int|
            0 <= i < old(ducks)@.len() ==> ({
                &&& (#[trigger] final(ducks)@[i]).entity == old(ducks)@[i].entity
                &&& final(ducks)@[i].stage == old(ducks)@[i].stage
                &&& final(ducks)@[i].time.0 == earlier(old(ducks)@[i].time.0, dt)
            }),
{
    let n = ducks.len();
    let mut i: usize = 0;
    while i < n
        invariant
            i <= n,
            n == ducks@.len(),
            n == old(ducks)@.len(),
            forall|k: int| i <= k < n ==> #[trigger] ducks@[k] == old(ducks)@[k],
            forall|k: int|
                0 <= k < i ==> ({
                    &&& (#[trigger] ducks@[k]).entity == old(ducks)@[k].entity
                    &&& ducks@[k].stage == old(ducks)@[k].stage
                    &&& ducks@[k].time.0 == earlier(old(ducks)@[k].time.0, dt)
                }),
        decreases n - i,
    {
        let time = ducks[i].time.0;
        ducks[i].time = LifeCycleTime(saturate_i32(time as i128 - dt as i128));
        i += 1;
    }
}

/// The duration between `min` and `max` that `sample` picks: `min` plus the
/// share `sample / SAMPLE_RANGE` of the way to `max`.
pub open spec fn drawn_duration(min: i32, max: i32, sample: u32) -> i32 {
    (min + div_toward_zero((max - min) * sample, SAMPLE_RANGE as int)) as i32
}

/// The share `sample / range` of `d` lies between zero and `d`, short of `d`.
proof fn lemma_share_bounds(d: int, sample: int, range: int)
    by (nonlinear_arith)
    requires
        0 <= sample < range,
    ensures
        d >= 0 ==> 0 <= div_toward_zero(d * sample, range) <= d,
        d > 0 ==> div_toward_zero(d * sample, range) < d,
        d <= 0 ==> d <= div_toward_zero(d * sample, range) <= 0,
{
    lemma_div_toward_zero_bounds(d * sample, range);
}

/// A drawn duration lies between the two ends it was drawn from.
pub proof fn lemma_drawn_duration_in_range(min: i32, max: i32, sample: u32)
    ensures
        drawn_duration(min, max, sample) == min + div_toward_zero(
            (max - min) * sample,
            SAMPLE_RANGE as int,
        ),
        min <= max ==> min <= drawn_duration(min, max, sample) <= max,
        min < max ==> drawn_duration(min, max, sample) < max,
        max <= min ==> max <= drawn_duration(min, max, sample) <= min,
{
    lemma_share_bounds(max - min, sample as int, SAMPLE_RANGE as int);
}

/// Picks the duration between `min` and `max` that `sample` stands for.
pub fn draw_duration(min: i32, max: i32, sample: u32) -> (duration: i32)
    ensures
        duration == drawn_duration(min, max, sample),
        min <= max ==> min <= duration <= max,
{
    proof {
        lemma_drawn_duration_in_range(min, max, sample);
        lemma_product_bound(max - min, sample as int, 0x1_0000_0000, 0x1_0000_0000);
    }
    let span = max as i128 - min as i128;
    (min as i128 + quotient(span * (sample as i128), SAMPLE_RANGE)) as i32
}

/// Starts the next stage of life if the timer has run out: the timer is set
/// anew, to the duration between `next_cycle_time_min` and
/// `next_cycle_time_max` that `sample` picks. A timer that still runs is left
/// alone.
pub fn transition_life_cycle(
    next_cycle_time_min: i32,
    next_cycle_time_max: i32,
    sample: u32,
    life_cycle_time: &mut LifeCycleTime,
) -> (transitioned: bool)
    ensures
        transitioned == (old(life_cycle_time).0 <= 0),
        transitioned ==> final(life_cycle_time).0 == drawn_duration(
            next_cycle_time_min,
            next_cycle_time_max,
            sample,
        ),
        !transitioned ==> *final(life_cycle_time) == *old(life_cycle_time),
{
    if life_cycle_time.0 > 0 {
        return false;
    }
    *life_cycle_time = LifeCycleTime(
        draw_duration(next_cycle_time_min, next_cycle_time_max, sample),
    );
    true
}

/// Whether a duck is in stage `from` and its timer has run out.
pub open spec fn is_due(duck: Duck, from: Stage) -> bool {
    duck.stage == from && duck.time.0 <= 0
}

/// `duck` as it enters stage `to`, its timer set anew from `sample`.
pub open spec fn advanced(duck: Duck, to: Stage, min: i32, max: i32, sample: u32) -> Duck {
    Duck { entity: duck.entity, stage: to, time: LifeCycleTime(drawn_duration(min, max, sample)) }
}

/// Moves `duck` from stage `from` to stage `to` if it is due: stage and timer
/// change together. Any other duck is left alone.
pub fn advance(duck: &mut Duck, from: Stage, to: Stage, min: i32, max: i32, sample: u32) -> (
    transitioned: bool)
    ensures
        transitioned == is_due(*old(duck), from),
        transitioned ==> *final(duck) == advanced(*old(duck), to, min, max, sample),
        !transitioned ==> *final(duck) == *old(duck),
{
    if duck.stage != from {
        return false;
    }
    let mut time = duck.time;
    let transitioned = transition_life_cycle(min, max, sample, &mut time);
    if transitioned {
        duck.time = time;
        duck.stage = to;
    }
    transitioned
}

/// A duck that has entered a stage with a positive least duration is not due
/// to leave it: no duck passes two stages in one tick.
pub proof fn lemma_one_transition_per_tick(
    duck: Duck,
    to: Stage,
    min: i32,
    max: i32,
    sample: u32,
)
    requires
        0 < min <= max,
    ensures
        !is_due(advanced(duck, to, min, max, sample), to),
        min <= advanced(duck, to, min, max, sample).time.0 <= max,
{
    lemma_drawn_duration_in_range(min, max, sample);
}

/// What a tick of one stage does to one duck: a duck that is due enters stage
/// `to` with a timer drawn between `min` and `max`; any other duck stays as it
/// is.
pub open spec fn stage_step(
    before: Duck,
    after: Duck,
    transitioned: bool,
    from: Stage,
    to: Stage,
    min: i32,
    max: i32,
) -> bool {
    &&& transitioned == is_due(before, from)
    &&& transitioned ==> exists|sample: u32| after == #[trigger] advanced(before, to, min, max, sample)
    &&& !transitioned ==> after == before
}

/// Moves every duck of stage `from` whose timer has run out to stage `to`,
/// each with a timer drawn by chance.
fn age_stage(ducks: &mut Vec<Duck>, from: Stage, to: Stage, min: i32, max: i32) -> (transitioned:
    Vec<bool>)
    ensures
        final(ducks)@.len() == old(ducks)@.len(),
        transitioned@.len() == old(ducks)@.len(),
        forall|i: int|
            0 <= i < old(ducks)@.len() ==> stage_step(
                old(ducks)@[i],
                #[trigger] final(ducks)@[i],
                transitioned@[i],
                from,
                to,
                min,
                max,
            ),
{
    let n = ducks.len();
    let mut transitioned: Vec<bool> = Vec::new();
    let mut i: usize = 0;
    while i < n
        invariant
            i <= n,
            n == ducks@.len(),
            n == old(ducks)@.len(),
            transitioned@.len() == i,
            forall|k: int| i <= k < n ==> #[trigger] ducks@[k] == old(ducks)@[k],
            forall|k: int|
                0 <= k < i ==> stage_step(
                    old(ducks)@[k],
                    #[trigger] ducks@[k],
                    transitioned@[k],
                    from,
                    to,
                    min,
                    max,
                ),
        decreases n - i,
    {
        let mut duck = ducks[i];
        let mut moved = false;
        if duck.stage == from && duck.time.0 <= 0 {
            let sample = random_sample();
            moved = advance(&mut duck, from, to, min, max, sample);
            ducks[i] = duck;
        }
        transitioned.push(moved);
        i += 1;
    }
    transitioned
}

/// A duckling that has just hatched: how it sets off.
#[derive(Clone, Copy, Debug)]
pub struct Hatchling {
    pub velocity: Velocity,
    pub limits: VelocityLimits,
}

/// The direction that two samples pick: each sample is a coordinate, taken
/// from the middle of its range. Two samples in the very middle give no
/// direction; the hatchling then sets off along the first axis.
pub open spec fn drawn_direction(x_sample: u32, y_sample: u32) -> Offset {
    if x_sample == SAMPLE_RANGE / 2 && y_sample == SAMPLE_RANGE / 2 {
        Offset { x: 1, y: 0 }
    } else {
        Offset { x: x_sample - SAMPLE_RANGE / 2, y: y_sample - SAMPLE_RANGE / 2 }
    }
}

/// The hatchling that two samples pick: it sets off in the drawn direction at
/// the least speed of a duck, within the limits of a duck.
pub open spec fn drawn_hatchling(x_sample: u32, y_sample: u32) -> Hatchling {
    Hatchling {
        velocity: Velocity(
            Vec2::zero_vector().moved_by(
                drawn_direction(x_sample, y_sample).stretched_to(MIN_VELOCITY as int),
            ),
        ),
        limits: VelocityLimits { min: MIN_VELOCITY, max: MAX_VELOCITY },
    }
}

/// Every hatchling moves, and its speed is within the limits it is given.
pub proof fn lemma_hatchling_moves_within_limits(x_sample: u32, y_sample: u32)
    ensures
        drawn_hatchling(x_sample, y_sample).limits.wf(),
        within_limits(
            drawn_hatchling(x_sample, y_sample).velocity.0,
            drawn_hatchling(x_sample, y_sample).limits,
        ),
        drawn_hatchling(x_sample, y_sample).velocity.0 != Vec2::zero_vector(),
{
    let direction = drawn_direction(x_sample, y_sample);
    lemma_len2_zero(direction);
    lemma_stretched_reaches(direction, MIN_VELOCITY as int);
    lemma_stretched_within(direction, MIN_VELOCITY as int);
    let stretched = direction.stretched_to(MIN_VELOCITY as int);
    let velocity = drawn_hatchling(x_sample, y_sample).velocity.0;
    assert(velocity.exact() == stretched);
    assert(MIN_VELOCITY * MIN_VELOCITY == 2_500_000_000);
    assert(MAX_VELOCITY * MAX_VELOCITY == 22_500_000_000);
    lemma_len2_zero(stretched);
}

/// Hatches `duck` if it is an egg whose timer has run out: it becomes a
/// duckling, its timer is drawn from the time a duckling takes to grow, and it
/// sets off as the two direction samples say. Any other duck is left alone.
pub fn hatch_egg(
    duck: &mut Duck,
    duration_sample: u32,
    x_sample: u32,
    y_sample: u32,
    config: &LifeCycleConfig,
) -> (hatchling: Option<Hatchling>)
    ensures
        hatchling is Some <==> is_due(*old(duck), Stage::Egg),
        hatchling is Some ==> ({
            &&& *final(duck) == advanced(
                *old(duck),
                Stage::Duckling,
                config.duckling_to_juvenile_time_min,
                config.duckling_to_juvenile_time_max,
                duration_sample,
            )
            &&& hatchling == Some(drawn_hatchling(x_sample, y_sample))
        }),
        hatchling is None ==> *final(duck) == *old(duck),
{
    let hatched = advance(
        duck,
        Stage::Egg,
        Stage::Duckling,
        config.duckling_to_juvenile_time_min,
        config.duckling_to_juvenile_time_max,
        duration_sample,
    );
    if !hatched {
        return None;
    }
    let direction = if x_sample as i128 == SAMPLE_RANGE / 2 && y_sample as i128 == SAMPLE_RANGE / 2 {
        Wide { x: 1, y: 0 }
    } else {
        Wide { x: x_sample as i128 - SAMPLE_RANGE / 2, y: y_sample as i128 - SAMPLE_RANGE / 2 }
    };
    let velocity = Vec2::zero().shifted(&direction.stretched_to(MIN_VELOCITY as i128));
    Some(
        Hatchling {
            velocity: Velocity(velocity),
            limits: VelocityLimits { min: MIN_VELOCITY, max: MAX_VELOCITY },
        },
    )
}

/// How many of the ducks are in stage `from` with a timer that has run out.
pub open spec fn due_count(ducks: Seq<Duck>, from: Stage) -> int
    decreases ducks.len(),
{
    if ducks.len() == 0 {
        0
    } else {
        due_count(ducks.drop_last(), from) + if is_due(ducks.last(), from) {
            1int
        } else {
            0int
        }
    }
}

/// What a tick of hatching does to one duck: an egg that is due becomes a
/// duckling with a timer drawn from the time a duckling takes to grow, and
/// sets off in a direction drawn by chance; any other duck stays as it is.
pub open spec fn hatch_step(
    before: Duck,
    after: Duck,
    hatchling: Option<Hatchling>,
    config: LifeCycleConfig,
) -> bool {
    &&& hatchling is Some <==> is_due(before, Stage::Egg)
    &&& hatchling is Some ==> ({
        &&& exists|sample: u32|
            after == #[trigger] advanced(
                before,
                Stage::Duckling,
                config.duckling_to_juvenile_time_min,
                config.duckling_to_juvenile_time_max,
                sample,
            )
        &&& exists|x_sample: u32, y_sample: u32|
            hatchling == Some(#[trigger] drawn_hatchling(x_sample, y_sample))
    })
    &&& hatchling is None ==> after == before
}

/// The score after `hatched` more eggs have hatched: a point for each, unless
/// the game only simulates.
pub open spec fn score_after(stats: PlayerStats, hatched: int) -> i32 {
    if stats.is_simulating {
        stats.score
    } else {
        saturate(stats.score + hatched) as i32
    }
}

/// Hatches every egg whose timer has run out. Returns, duck by duck, the
/// hatchling it became. Every hatched egg scores a point unless the game only
/// simulates.
pub fn system_hatch_eggs(ducks: &mut Vec<Duck>, stats: &mut PlayerStats, config: &LifeCycleConfig)
    -> (hatchlings: Vec<Option<Hatchling>>)
    ensures
        final(ducks)@.len() == old(ducks)@.len(),
        hatchlings@.len() == old(ducks)@.len(),
        forall|i: int|
            0 <= i < old(ducks)@.len() ==> hatch_step(
                old(ducks)@[i],
                #[trigger] final(ducks)@[i],
                hatchlings@[i],
                *config,
            ),
        final(stats).score == score_after(*old(stats), due_count(old(ducks)@, Stage::Egg)),
        final(stats).ducks_born == old(stats).ducks_born,
        final(stats).is_simulating == old(stats).is_simulating,
        final(stats).remaining_time == old(stats).remaining_time,
{
    let n = ducks.len();
    let mut hatchlings: Vec<Option<Hatchling>> = Vec::new();
    let mut i: usize = 0;
    while i < n
        invariant
            i <= n,
            n == ducks@.len(),
            n == old(ducks)@.len(),
            hatchlings@.len() == i,
            forall|k: int| i <= k < n ==> #[trigger] ducks@[k] == old(ducks)@[k],
            forall|k: int|
                0 <= k < i ==> hatch_step(
                    old(ducks)@[k],
                    #[trigger] ducks@[k],
                    hatchlings@[k],
                    *config,
                ),
            0 <= due_count(old(ducks)@.take(i as int), Stage::Egg) <= i,
            stats.score == score_after(
                *old(stats),
                due_count(old(ducks)@.take(i as int), Stage::Egg),
            ),
            stats.ducks_born == old(stats).ducks_born,
            stats.is_simulating == old(stats).is_simulating,
            stats.remaining_time == old(stats).remaining_time,
        decreases n - i,
    {
        proof {
            assert(old(ducks)@.take(i + 1).drop_last() == old(ducks)@.take(i as int));
        }
        let mut duck = ducks[i];
        let mut hatchling: Option<Hatchling> = None;
        if duck.stage == Stage::Egg && duck.time.0 <= 0 {
            let duration_sample = random_sample();
            let x_sample = random_sample();
            let y_sample = random_sample();
            hatchling = hatch_egg(&mut duck, duration_sample, x_sample, y_sample, config);
            ducks[i] = duck;
            if !stats.is_simulating {
                stats.score = saturate_i32(stats.score as i128 + 1);
            }
            proof {
                assert(ducks@[i as int] == advanced(
                    old(ducks)@[i as int],
                    Stage::Duckling,
                    config.duckling_to_juvenile_time_min,
                    config.duckling_to_juvenile_time_max,
                    duration_sample,
                ));
                assert(hatchling == Some(drawn_hatchling(x_sample, y_sample)));
            }
        }
        hatchlings.push(hatchling);
        i += 1;
    }
    proof {
        assert(old(ducks)@.take(n as int) == old(ducks)@);
    }
    hatchlings
}

/// Lets every duckling whose timer has run out grow into a juvenile, with a
/// timer drawn from the time a juvenile takes to grow up. Returns, duck by
/// duck, whether it grew.
pub fn system_duckling_to_juvenile(ducks: &mut Vec<Duck>, config: &LifeCycleConfig) -> (grown: Vec<
    bool,
>)
    ensures
        final(ducks)@.len() == old(ducks)@.len(),
        grown@.len() == old(ducks)@.len(),
        forall|i: int|
            0 <= i < old(ducks)@.len() ==> stage_step(
                old(ducks)@[i],
                #[trigger] final(ducks)@[i],
                grown@[i],
                Stage::Duckling,
                Stage::Juvenile,
                config.juvenile_to_adult_time_min,
                config.juvenile_to_adult_time_max,
            ),
{
    age_stage(
        ducks,
        Stage::Duckling,
        Stage::Juvenile,
        config.juvenile_to_adult_time_min,
        config.juvenile_to_adult_time_max,
    )
}

/// What a duck gains as it grows up: a list of the adults close to it, which
/// is empty until the next proximity query, and a breeding progress that
/// starts from nothing.
#[derive(Debug)]
pub struct NewAdult {
    pub close_adults: CloseAdults,
    pub breeding_progress: BreedingProgress,
}

/// Whether a new adult starts with no close adults and no breeding progress.
pub open spec fn is_fresh(adult: NewAdult) -> bool {
    adult.close_adults.0@.len() == 0 && adult.breeding_progress.0 == 0
}

/// Lets every juvenile whose timer has run out grow up. An adult has no
/// stage left to enter; its timer is drawn from the time a duckling takes to
/// grow. Returns, duck by duck, what it gained if it grew up: every new adult
/// starts with an empty list of close adults and no breeding progress.
pub fn system_juvenile_to_adult(ducks: &mut Vec<Duck>, config: &LifeCycleConfig) -> (grown: Vec<
    Option<NewAdult>,
>)
    ensures
        final(ducks)@.len() == old(ducks)@.len(),
        grown@.len() == old(ducks)@.len(),
        forall|i: int|
            0 <= i < old(ducks)@.len() ==> stage_step(
                old(ducks)@[i],
                #[trigger] final(ducks)@[i],
                grown@[i] is Some,
                Stage::Juvenile,
                Stage::Adult,
                config.duckling_to_juvenile_time_min,
                config.duckling_to_juvenile_time_max,
            ),
        forall|i: int|
            0 <= i < old(ducks)@.len() ==> (#[trigger] grown@[i] matches Some(adult) ==> is_fresh(
                adult,
            )),
{
    let flags = age_stage(
        ducks,
        Stage::Juvenile,
        Stage::Adult,
        config.duckling_to_juvenile_time_min,
        config.duckling_to_juvenile_time_max,
    );
    let n = flags.len();
    let mut grown: Vec<Option<NewAdult>> = Vec::new();
    let mut i: usize = 0;
    while i < n
        invariant
            i <= n,
            n == flags@.len(),
            grown@.len() == i,
            forall|k: int| 0 <= k < i ==> (#[trigger] grown@[k]) is Some == flags@[k],
            forall|k: int|
                0 <= k < i ==> (#[trigger] grown@[k] matches Some(adult) ==> is_fresh(adult)),
        decreases n - i,
    {
        if flags[i] {
            grown.push(
                Some(
                    NewAdult {
                        close_adults: CloseAdults::default(),
                        breeding_progress: BreedingProgress::default(),
                    },
                ),
            );
        } else {
            grown.push(None);
        }
        i += 1;
    }
    grown
}

} // verus!

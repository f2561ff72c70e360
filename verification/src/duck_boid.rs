//! What adult ducks see of each other and how ducks are drawn to mates, food
//! and parents.

use vstd::prelude::*;
use crate::boid::{Boid, VISIBILITY_RADIUS_2};
use crate::breeding::Sambo;
use crate::entity::{are_distinct, distinct, entity_index_get, index_handles, leads_home, Entity};
use crate::fixed::lemma_mean_bounds;
use crate::movement::{compute_speed_change, speed_change, Velocity};
use crate::target::{
    closest_target, find_closest_target, first_min, is_first_min, pick_first_min, Target,
};
use crate::vec2::{Offset, Vec2, Wide};

verus! {

/// Squared radius within which an adult counts as close to another.
pub const CLOSE_ADULTS_RADIUS_2: i64 = 5_625_000_000;

/// Squared radius within which an adult sees possible mates.
pub const MATING_VISIBILITY_RADIUS_2: i64 = 250_000_000_000;

/// Squared distance below which an adult no longer approaches a mate.
pub const MATING_MIN_DISTANCE_2: i64 = 2_500_000_000;

/// Acceleration toward the closest lonely adult.
pub const TOWARDS_LONELY_ADULT_FACTOR: u32 = 50_000;

/// Acceleration away from the biggest group of adults.
pub const AVOID_ADULT_GROUP_FACTOR: u32 = 400;

/// The other adults close to one adult, each with its position, as of the last
/// proximity query.
#[derive(Debug)]
pub struct CloseAdults(pub Vec<(Vec2, Entity)>);

impl Default for CloseAdults {
    /// The list of an adult that no proximity query has looked at yet: empty.
    fn default() -> (close_adults: CloseAdults)
        ensures
            close_adults.0@.len() == 0,
    {
        CloseAdults(Vec::new())
    }
}

/// An adult duck that flocks.
#[derive(Debug)]
pub struct AdultBoid {
    pub entity: Entity,
    pub position: Vec2,
    pub velocity: Velocity,
    pub close_adults: CloseAdults,
    pub sambo: Option<Sambo>,
}

/// The tunables of mating attraction.
#[derive(Clone, Copy, Debug)]
pub struct MatingConfig {
    pub mating_visibility_radius_2: i64,
    pub mating_min_distance_2: i64,
    pub towards_lonely_adult_factor: u32,
    pub avoid_adult_group_factor: u32,
}

impl Default for MatingConfig {
    fn default() -> (config: MatingConfig)
        ensures
            config.mating_visibility_radius_2 == MATING_VISIBILITY_RADIUS_2,
            config.mating_min_distance_2 == MATING_MIN_DISTANCE_2,
            config.towards_lonely_adult_factor == TOWARDS_LONELY_ADULT_FACTOR,
            config.avoid_adult_group_factor == AVOID_ADULT_GROUP_FACTOR,
    {
        MatingConfig {
            mating_visibility_radius_2: MATING_VISIBILITY_RADIUS_2,
            mating_min_distance_2: MATING_MIN_DISTANCE_2,
            towards_lonely_adult_factor: TOWARDS_LONELY_ADULT_FACTOR,
            avoid_adult_group_factor: AVOID_ADULT_GROUP_FACTOR,
        }
    }
}

/// Whether two adults are the same agent at the same place.
pub open spec fn same_body(a: AdultBoid, b: AdultBoid) -> bool {
    a.entity == b.entity && a.position == b.position
}

/// Whether `other` is another adult strictly within the squared radius of `me`.
pub open spec fn is_close(me: AdultBoid, other: AdultBoid, radius_2: int) -> bool {
    other.entity != me.entity && me.position.dist2(other.position) < radius_2
}

/// The adults of `others` that are close to `me`, in the order of `others`.
pub open spec fn close_adults_of(me: AdultBoid, others: Seq<AdultBoid>, radius_2: int) -> Seq<
    (Vec2, Entity),
>
    decreases others.len(),
{
    if others.len() == 0 {
        Seq::empty()
    } else {
        let rest = close_adults_of(me, others.drop_last(), radius_2);
        let other = others.last();
        if is_close(me, other, radius_2) {
            rest.push((other.position, other.entity))
        } else {
            rest
        }
    }
}

/// The close adults of an agent depend only on who is where.
pub proof fn lemma_close_adults_depend_on_bodies(
    me: AdultBoid,
    others: Seq<AdultBoid>,
    me_again: AdultBoid,
    others_again: Seq<AdultBoid>,
    radius_2: int,
)
    requires
        same_body(me, me_again),
        others.len() == others_again.len(),
        forall|k: int| 0 <= k < others.len() ==> same_body(others[k], #[trigger] others_again[k]),
    ensures
        close_adults_of(me, others, radius_2) == close_adults_of(me_again, others_again, radius_2),
    decreases others.len(),
{
    if others.len() > 0 {
        lemma_close_adults_depend_on_bodies(
            me,
            others.drop_last(),
            me_again,
            others_again.drop_last(),
            radius_2,
        );
        assert(same_body(others.last(), others_again[others.len() - 1]));
    }
}

/// Every entry of an agent's close adults is another agent of the population,
/// strictly within the radius.
pub proof fn lemma_close_adults_entries(
    me: AdultBoid,
    others: Seq<AdultBoid>,
    radius_2: int,
    k: int,
)
    requires
        0 <= k < close_adults_of(me, others, radius_2).len(),
    ensures
        close_adults_of(me, others, radius_2)[k].1 != me.entity,
        me.position.dist2(close_adults_of(me, others, radius_2)[k].0) < radius_2,
        exists|j: int|
            0 <= j < others.len() && is_close(me, #[trigger] others[j], radius_2)
                && close_adults_of(me, others, radius_2)[k] == (others[j].position, others[j].entity),
    decreases others.len(),
{
    if others.len() > 0 {
        let rest = close_adults_of(me, others.drop_last(), radius_2);
        let other = others.last();
        if k < rest.len() {
            lemma_close_adults_entries(me, others.drop_last(), radius_2, k);
            let j = choose|j: int|
                0 <= j < others.drop_last().len() && is_close(
                    me,
                    #[trigger] others.drop_last()[j],
                    radius_2,
                ) && rest[k] == (others.drop_last()[j].position, others.drop_last()[j].entity);
            assert(others[j] == others.drop_last()[j]);
        } else {
            assert(is_close(me, others[others.len() - 1], radius_2));
        }
    }
}

/// Every other agent strictly within the radius is among an agent's close
/// adults.
pub proof fn lemma_close_adults_complete(
    me: AdultBoid,
    others: Seq<AdultBoid>,
    radius_2: int,
    j: int,
)
    requires
        0 <= j < others.len(),
        is_close(me, others[j], radius_2),
    ensures
        close_adults_of(me, others, radius_2).contains((others[j].position, others[j].entity)),
    decreases others.len(),
{
    let rest = close_adults_of(me, others.drop_last(), radius_2);
    let all = close_adults_of(me, others, radius_2);
    if j == others.len() - 1 {
        assert(all[all.len() - 1] == (others[j].position, others[j].entity));
    } else {
        lemma_close_adults_complete(me, others.drop_last(), radius_2, j);
        let k = choose|k: int|
            0 <= k < rest.len() && rest[k] == (others[j].position, others[j].entity);
        assert(all[k] == rest[k]);
    }
}

/// Whether `after` is `before` with the close adults of every adult computed
/// anew, from who is where in `before`.
pub open spec fn is_query_result(before: Seq<AdultBoid>, after: Seq<AdultBoid>, radius_2: int)
    -> bool {
    &&& after.len() == before.len()
    &&& forall|i: int|
        0 <= i < before.len() ==> ({
            &&& (#[trigger] after[i]).entity == before[i].entity
            &&& after[i].position == before[i].position
            &&& after[i].velocity == before[i].velocity
            &&& after[i].sambo == before[i].sambo
            &&& after[i].close_adults.0@ == close_adults_of(before[i], before, radius_2)
        })
}

/// Asking twice gives the same answer: where nobody moved in between, a
/// second proximity query leaves every list of close adults as the first one
/// made it.
pub proof fn lemma_query_is_idempotent(
    start: Seq<AdultBoid>,
    once: Seq<AdultBoid>,
    twice: Seq<AdultBoid>,
    radius_2: int,
)
    requires
        is_query_result(start, once, radius_2),
        is_query_result(once, twice, radius_2),
    ensures
        forall|i: int|
            0 <= i < start.len() ==> (#[trigger] twice[i]).close_adults.0@
                == once[i].close_adults.0@,
{
    assert forall|i: int| 0 <= i < start.len() implies (#[trigger] twice[i]).close_adults.0@
        == once[i].close_adults.0@ by {
        lemma_close_adults_depend_on_bodies(start[i], start, once[i], once, radius_2);
    }
}

/// No adult is among its own close adults after a proximity query.
pub proof fn lemma_query_excludes_self(
    before: Seq<AdultBoid>,
    after: Seq<AdultBoid>,
    radius_2: int,
)
    requires
        is_query_result(before, after, radius_2),
    ensures
        forall|i: int, k: int|
            0 <= i < after.len() && 0 <= k < after[i].close_adults.0@.len() ==> (
            #[trigger] after[i].close_adults.0@[k]).1 != after[i].entity,
{
    assert forall|i: int, k: int|
        0 <= i < after.len() && 0 <= k < after[i].close_adults.0@.len() implies (
    #[trigger] after[i].close_adults.0@[k]).1 != after[i].entity by {
        lemma_close_adults_entries(before[i], before, radius_2, k);
    }
}

/// The handles of the adults, in order.
pub open spec fn adult_handles(adults: Seq<AdultBoid>) -> Seq<Entity> {
    Seq::new(adults.len(), |i: int| adults[i].entity)
}

/// Finds the adults that are close to adult `i`.
fn find_close_adults(i: usize, adults: &Vec<AdultBoid>, radius_2: i64) -> (list: Vec<
    (Vec2, Entity),
>)
    requires
        i < adults@.len(),
    ensures
        list@ == close_adults_of(adults@[i as int], adults@, radius_2 as int),
{
    let n = adults.len();
    let mut list: Vec<(Vec2, Entity)> = Vec::new();
    let entity = adults[i].entity;
    let position = adults[i].position;
    let mut j: usize = 0;
    while j < n
        invariant
            j <= n,
            i < n,
            n == adults@.len(),
            entity == adults@[i as int].entity,
            position == adults@[i as int].position,
            list@ == close_adults_of(adults@[i as int], adults@.take(j as int), radius_2 as int),
        decreases n - j,
    {
        let other_entity = adults[j].entity;
        let other_position = adults[j].position;
        proof {
            assert(adults@.take(j + 1).drop_last() == adults@.take(j as int));
        }
        if other_entity != entity && position.distance_squared(&other_position)
            < radius_2 as i128 {
            list.push((other_position, other_entity));
        }
        j += 1;
    }
    proof {
        assert(adults@.take(n as int) == adults@);
    }
    list
}

/// Copies a list of close adults.
fn copy_entries(list: &Vec<(Vec2, Entity)>) -> (copy: Vec<(Vec2, Entity)>)
    ensures
        copy@ == list@,
{
    let n = list.len();
    let mut copy: Vec<(Vec2, Entity)> = Vec::new();
    let mut j: usize = 0;
    while j < n
        invariant
            j <= n,
            n == list@.len(),
            copy@ == list@.take(j as int),
        decreases n - j,
    {
        copy.push(list[j]);
        proof {
            assert(list@.take(j + 1) == list@.take(j as int).push(list@[j as int]));
        }
        j += 1;
    }
    proof {
        assert(list@.take(n as int) == list@);
    }
    copy
}

/// Recomputes, for every adult, the other adults strictly within the squared
/// radius, in population order. In a first pass the lists are made, from the
/// population as it was handed in, and kept under the handle of each adult; in
/// a second pass every adult takes the list that is kept under its handle.
pub fn system_boid_update_close_adults(adults: &mut Vec<AdultBoid>, radius_2: i64)
    requires
        distinct(adult_handles(old(adults)@)),
    ensures
        is_query_result(old(adults)@, final(adults)@, radius_2 as int),
{
    let n = adults.len();
    let mut lists: Vec<Vec<(Vec2, Entity)>> = Vec::new();
    let mut handles: Vec<Entity> = Vec::new();
    let mut listed: Vec<bool> = Vec::new();
    let mut i: usize = 0;
    while i < n
        invariant
            i <= n,
            n == adults@.len(),
            adults@ == old(adults)@,
            lists@.len() == i,
            handles@.len() == i,
            listed@.len() == i,
            forall|k: int| 0 <= k < i ==> #[trigger] handles@[k] == adults@[k].entity,
            forall|k: int| 0 <= k < i ==> #[trigger] listed@[k],
            forall|k: int|
                0 <= k < i ==> (#[trigger] lists@[k])@ == close_adults_of(
                    adults@[k],
                    adults@,
                    radius_2 as int,
                ),
        decreases n - i,
    {
        let list = find_close_adults(i, adults, radius_2);
        lists.push(list);
        handles.push(adults[i].entity);
        listed.push(true);
        i += 1;
    }
    assert(handles@ =~= adult_handles(adults@));
    let index = index_handles(&handles, &listed);
    let mut i: usize = 0;
    while i < n
        invariant
            i <= n,
            n == adults@.len(),
            n == old(adults)@.len(),
            lists@.len() == n,
            handles@.len() == n,
            listed@.len() == n,
            leads_home(index@, handles@, listed@),
            forall|k: int| 0 <= k < n ==> #[trigger] handles@[k] == old(adults)@[k].entity,
            forall|k: int| 0 <= k < n ==> #[trigger] listed@[k],
            forall|k: int|
                0 <= k < n ==> (#[trigger] lists@[k])@ == close_adults_of(
                    old(adults)@[k],
                    old(adults)@,
                    radius_2 as int,
                ),
            forall|k: int|
                0 <= k < n ==> ({
                    &&& (#[trigger] adults@[k]).entity == old(adults)@[k].entity
                    &&& adults@[k].position == old(adults)@[k].position
                    &&& adults@[k].velocity == old(adults)@[k].velocity
                    &&& adults@[k].sambo == old(adults)@[k].sambo
                }),
            forall|k: int|
                0 <= k < i ==> (#[trigger] adults@[k]).close_adults.0@ == close_adults_of(
                    old(adults)@[k],
                    old(adults)@,
                    radius_2 as int,
                ),
        decreases n - i,
    {
        let entity = adults[i].entity;
        proof {
            assert(handles@[i as int] == entity);
            assert(listed@[i as int]);
        }
        match entity_index_get(&index, entity) {
            Some(k) => {
                adults[i].close_adults = CloseAdults(copy_entries(&lists[k]));
            },
            None => {},
        }
        i += 1;
    }
}

/// Whether an adult with these close adults is alone, or has only `seeker`
/// close to it.
pub open spec fn is_lonely(cache: CloseAdults, seeker: Entity) -> bool {
    cache.0@.len() == 0 || (cache.0@.len() == 1 && cache.0@[0].1 == seeker)
}

/// Whether `other` is another adult within the squared radius of `me`.
pub open spec fn in_sight(me: AdultBoid, other: AdultBoid, radius_2: int) -> bool {
    other.entity != me.entity && me.position.dist2(other.position) <= radius_2
}

/// The squared distance from `me` to each adult.
pub open spec fn mate_distances(me: AdultBoid, adults: Seq<AdultBoid>) -> Seq<int> {
    Seq::new(adults.len(), |j: int| me.position.dist2(adults[j].position))
}

/// Which adults are in sight of `me` and lonely.
pub open spec fn lonely_in_sight(me: AdultBoid, adults: Seq<AdultBoid>, radius_2: int) -> Seq<
    bool,
> {
    Seq::new(
        adults.len(),
        |j: int| in_sight(me, adults[j], radius_2) && is_lonely(adults[j].close_adults, me.entity),
    )
}

/// The closest lonely adult in sight of `me`; of several equally close, the
/// first.
pub open spec fn closest_lonely_adult(me: AdultBoid, adults: Seq<AdultBoid>, radius_2: int)
    -> Option<int> {
    first_min(mate_distances(me, adults), lonely_in_sight(me, adults, radius_2))
}

/// For each adult, the number of its close adults, negated: the smallest entry
/// marks the biggest group.
pub open spec fn group_sizes(adults: Seq<AdultBoid>) -> Seq<int> {
    Seq::new(adults.len(), |j: int| -(adults[j].close_adults.0@.len() as int))
}

/// Which adults are in sight of `me`.
pub open spec fn adults_in_sight(me: AdultBoid, adults: Seq<AdultBoid>, radius_2: int) -> Seq<
    bool,
> {
    Seq::new(adults.len(), |j: int| in_sight(me, adults[j], radius_2))
}

/// The adult in sight of `me` with the most close adults; of several with as
/// many, the first.
pub open spec fn biggest_adult_group(me: AdultBoid, adults: Seq<AdultBoid>, radius_2: int)
    -> Option<int> {
    first_min(group_sizes(adults), adults_in_sight(me, adults, radius_2))
}

/// The sum of the positions of the entries.
pub open spec fn position_sum(entries: Seq<(Vec2, Entity)>) -> Offset
    decreases entries.len(),
{
    if entries.len() == 0 {
        Offset::zero()
    } else {
        position_sum(entries.drop_last()).plus(entries.last().0.exact())
    }
}

/// The mean position of the entries, rounded toward zero.
pub open spec fn centroid(entries: Seq<(Vec2, Entity)>) -> Offset {
    position_sum(entries).divided(entries.len() as int)
}

/// The velocity change that mating attraction gives `me` over `dt`: toward the
/// closest lonely adult in sight, unless it is within the minimum distance;
/// with no lonely adult in sight, away from the centre of the biggest group in
/// sight.
pub open spec fn mating_push(
    me: AdultBoid,
    adults: Seq<AdultBoid>,
    dt: u32,
    config: MatingConfig,
) -> Offset {
    match closest_lonely_adult(me, adults, config.mating_visibility_radius_2 as int) {
        Some(k) => {
            if me.position.dist2(adults[k].position) > config.mating_min_distance_2 {
                me.position.to(adults[k].position).shrunk_to(
                    speed_change(config.towards_lonely_adult_factor, dt),
                )
            } else {
                Offset::zero()
            }
        },
        None => {
            match biggest_adult_group(me, adults, config.mating_visibility_radius_2 as int) {
                Some(g) => {
                    centroid(adults[g].close_adults.0@).minus(me.position.exact()).shrunk_to(
                        speed_change(config.avoid_adult_group_factor, dt),
                    ).negated()
                },
                None => Offset::zero(),
            }
        },
    }
}

/// Computes the mean position of a non-empty list of close adults.
fn compute_centroid(entries: &Vec<(Vec2, Entity)>) -> (c: Wide)
    requires
        entries@.len() > 0,
    ensures
        c@ == centroid(entries@),
        -0x8000_0000 <= c.x <= 0x7FFF_FFFF,
        -0x8000_0000 <= c.y <= 0x7FFF_FFFF,
{
    let n = entries.len();
    let mut sum = Wide::zero();
    let mut j: usize = 0;
    while j < n
        invariant
            j <= n,
            n == entries@.len(),
            sum@ == position_sum(entries@.take(j as int)),
            j * (-0x8000_0000) <= sum.x <= j * 0x7FFF_FFFF,
            j * (-0x8000_0000) <= sum.y <= j * 0x7FFF_FFFF,
        decreases n - j,
    {
        proof {
            assert(entries@.take(j + 1).drop_last() == entries@.take(j as int));
        }
        let p = entries[j].0;
        sum = Wide { x: sum.x + p.x as i128, y: sum.y + p.y as i128 };
        j += 1;
    }
    proof {
        assert(entries@.take(n as int) == entries@);
        lemma_mean_bounds(sum.x as int, n as int, -0x8000_0000, 0x7FFF_FFFF);
        lemma_mean_bounds(sum.y as int, n as int, -0x8000_0000, 0x7FFF_FFFF);
    }
    sum.divided(n as i128)
}

/// Finds, for adult `i`, the closest lonely adult in sight and the biggest
/// group in sight.
fn find_mate_and_group(i: usize, adults: &Vec<AdultBoid>, radius_2: i64) -> (r: (
    Option<usize>,
    Option<usize>,
))
    requires
        i < adults@.len(),
    ensures
        r.0 matches Some(k) ==> k < adults@.len() && closest_lonely_adult(
            adults@[i as int],
            adults@,
            radius_2 as int,
        ) == Some(k as int),
        r.0 is None ==> closest_lonely_adult(adults@[i as int], adults@, radius_2 as int) is None,
        r.1 matches Some(g) ==> g < adults@.len() && biggest_adult_group(
            adults@[i as int],
            adults@,
            radius_2 as int,
        ) == Some(g as int),
        r.1 is None ==> biggest_adult_group(adults@[i as int], adults@, radius_2 as int) is None,
        r.0 is None ==> (r.1 matches Some(g) ==> adults@[g as int].close_adults.0@.len() > 0),
{
    let n = adults.len();
    let entity = adults[i].entity;
    let position = adults[i].position;
    let ghost me = adults@[i as int];
    let mut dist: Vec<i128> = Vec::new();
    let mut lonely: Vec<bool> = Vec::new();
    let mut sizes: Vec<i128> = Vec::new();
    let mut sight: Vec<bool> = Vec::new();
    let mut j: usize = 0;
    while j < n
        invariant
            j <= n,
            n == adults@.len(),
            i < n,
            me == adults@[i as int],
            entity == me.entity,
            position == me.position,
            dist@.len() == j,
            lonely@.len() == j,
            sizes@.len() == j,
            sight@.len() == j,
            forall|k: int| 0 <= k < j ==> #[trigger] dist@[k] as int == mate_distances(me, adults@)[k],
            forall|k: int|
                0 <= k < j ==> #[trigger] lonely@[k] == lonely_in_sight(
                    me,
                    adults@,
                    radius_2 as int,
                )[k],
            forall|k: int| 0 <= k < j ==> #[trigger] sizes@[k] as int == group_sizes(adults@)[k],
            forall|k: int|
                0 <= k < j ==> #[trigger] sight@[k] == adults_in_sight(
                    me,
                    adults@,
                    radius_2 as int,
                )[k],
        decreases n - j,
    {
        let other = &adults[j];
        let d = position.distance_squared(&other.position);
        let seen = other.entity != entity && d <= radius_2 as i128;
        let count = other.close_adults.0.len();
        let alone = count == 0 || (count == 1 && other.close_adults.0[0].1 == entity);
        dist.push(d);
        lonely.push(seen && alone);
        sizes.push(-(count as i128));
        sight.push(seen);
        j += 1;
    }
    let ghost exact_dist = mate_distances(me, adults@);
    let ghost exact_sizes = group_sizes(adults@);
    assert(lonely@ =~= lonely_in_sight(me, adults@, radius_2 as int));
    assert(sight@ =~= adults_in_sight(me, adults@, radius_2 as int));
    let mate = pick_first_min(&dist, &lonely, Ghost(exact_dist));
    let group = pick_first_min(&sizes, &sight, Ghost(exact_sizes));
    proof {
        if mate is None {
            if let Some(g) = group {
                assert(is_first_min(exact_sizes, sight@, g as int));
                assert(sight@[g as int]);
                assert(!lonely@[g as int]);
            }
        }
    }
    (mate, group)
}

/// Computes the velocity change that mating attraction gives adult `i`.
fn compute_mating_push(i: usize, adults: &Vec<AdultBoid>, dt: u32, config: &MatingConfig) -> (push:
    Wide)
    requires
        i < adults@.len(),
    ensures
        push@ == mating_push(adults@[i as int], adults@, dt, *config),
        push@.within(0x4000_0000_0000_0000),
{
    let position = adults[i].position;
    let (mate, group) = find_mate_and_group(i, adults, config.mating_visibility_radius_2);
    match mate {
        Some(k) => {
            let target = adults[k].position;
            if position.distance_squared(&target) > config.mating_min_distance_2 as i128 {
                let speed = compute_speed_change(config.towards_lonely_adult_factor, dt);
                position.offset_to(&target).shrunk_to(speed)
            } else {
                Wide::zero()
            }
        },
        None => {
            match group {
                Some(g) => {
                    let centre = compute_centroid(&adults[g].close_adults.0);
                    let speed = compute_speed_change(config.avoid_adult_group_factor, dt);
                    let away = Wide {
                        x: centre.x - position.x as i128,
                        y: centre.y - position.y as i128,
                    };
                    away.shrunk_to(speed).negated()
                },
                None => Wide::zero(),
            }
        },
    }
}

/// Steers every adult toward the closest lonely adult in sight or, where none
/// is in sight, away from the centre of the biggest group in sight. In a first
/// pass the pushes are computed, from the population as it was handed in, and
/// kept under the handle of each adult; in a second pass every adult takes the
/// push that is kept under its handle.
pub fn system_boid_mating_attraction(dt: u32, adults: &mut Vec<AdultBoid>, config: &MatingConfig)
    requires
        distinct(adult_handles(old(adults)@)),
    ensures
        final(adults)@.len() == old(adults)@.len(),
        forall|i: int|
            0 <= i < old(adults)@.len() ==> ({
                &&& (#[trigger] final(adults)@[i]).entity == old(adults)@[i].entity
                &&& final(adults)@[i].position == old(adults)@[i].position
                &&& final(adults)@[i].close_adults == old(adults)@[i].close_adults
                &&& final(adults)@[i].sambo == old(adults)@[i].sambo
                &&& final(adults)@[i].velocity.0 == old(adults)@[i].velocity.0.moved_by(
                    mating_push(old(adults)@[i], old(adults)@, dt, *config),
                )
            }),
{
    let n = adults.len();
    let mut pushes: Vec<Wide> = Vec::new();
    let mut handles: Vec<Entity> = Vec::new();
    let mut pushed: Vec<bool> = Vec::new();
    let mut i: usize = 0;
    while i < n
        invariant
            i <= n,
            n == adults@.len(),
            adults@ == old(adults)@,
            pushes@.len() == i,
            handles@.len() == i,
            pushed@.len() == i,
            forall|k: int| 0 <= k < i ==> #[trigger] handles@[k] == adults@[k].entity,
            forall|k: int| 0 <= k < i ==> #[trigger] pushed@[k],
            forall|k: int|
                0 <= k < i ==> (#[trigger] pushes@[k])@ == mating_push(
                    adults@[k],
                    adults@,
                    dt,
                    *config,
                ) && pushes@[k]@.within(0x4000_0000_0000_0000),
        decreases n - i,
    {
        let push = compute_mating_push(i, adults, dt, config);
        pushes.push(push);
        handles.push(adults[i].entity);
        pushed.push(true);
        i += 1;
    }
    assert(handles@ =~= adult_handles(adults@));
    let index = index_handles(&handles, &pushed);
    let mut i: usize = 0;
    while i < n
        invariant
            i <= n,
            n == adults@.len(),
            n == old(adults)@.len(),
            pushes@.len() == n,
            handles@.len() == n,
            pushed@.len() == n,
            leads_home(index@, handles@, pushed@),
            forall|k: int| 0 <= k < n ==> #[trigger] handles@[k] == old(adults)@[k].entity,
            forall|k: int| 0 <= k < n ==> #[trigger] pushed@[k],
            forall|k: int|
                0 <= k < n ==> (#[trigger] pushes@[k])@ == mating_push(
                    old(adults)@[k],
                    old(adults)@,
                    dt,
                    *config,
                ) && pushes@[k]@.within(0x4000_0000_0000_0000),
            forall|k: int|
                0 <= k < n ==> ({
                    &&& (#[trigger] adults@[k]).entity == old(adults)@[k].entity
                    &&& adults@[k].position == old(adults)@[k].position
                    &&& adults@[k].close_adults == old(adults)@[k].close_adults
                    &&& adults@[k].sambo == old(adults)@[k].sambo
                }),
            forall|k: int| i <= k < n ==> (#[trigger] adults@[k]).velocity == old(adults)@[k].velocity,
            forall|k: int|
                0 <= k < i ==> (#[trigger] adults@[k]).velocity.0 == old(adults)@[k].velocity.0.moved_by(
                    mating_push(old(adults)@[k], old(adults)@, dt, *config),
                ),
        decreases n - i,
    {
        let entity = adults[i].entity;
        let velocity = adults[i].velocity.0;
        proof {
            assert(handles@[i as int] == entity);
            assert(pushed@[i as int]);
        }
        match entity_index_get(&index, entity) {
            Some(k) => {
                adults[i].velocity = Velocity(velocity.shifted(&pushes[k]));
            },
            None => {},
        }
        i += 1;
    }
}

/// Collects the handles of the adults, in order.
fn collect_handles(adults: &Vec<AdultBoid>) -> (handles: Vec<Entity>)
    ensures
        handles@ == adult_handles(adults@),
{
    let n = adults.len();
    let mut handles: Vec<Entity> = Vec::new();
    let mut i: usize = 0;
    while i < n
        invariant
            i <= n,
            n == adults@.len(),
            handles@.len() == i,
            forall|k: int| 0 <= k < i ==> #[trigger] handles@[k] == adults@[k].entity,
        decreases n - i,
    {
        handles.push(adults[i].entity);
        i += 1;
    }
    assert(handles@ =~= adult_handles(adults@));
    handles
}

/// Recomputes the close adults of every adult if no handle occurs twice among
/// them, and tells whether it did; a population in which one does is left as
/// it is.
pub fn system_boid_update_close_adults_checked(adults: &mut Vec<AdultBoid>, radius_2: i64) -> (done:
    bool)
    ensures
        done == distinct(adult_handles(old(adults)@)),
        done ==> is_query_result(old(adults)@, final(adults)@, radius_2 as int),
        !done ==> final(adults)@ == old(adults)@,
{
    let handles = collect_handles(adults);
    if !are_distinct(&handles) {
        return false;
    }
    system_boid_update_close_adults(adults, radius_2);
    true
}

/// Steers the adults by mating attraction if no handle occurs twice among
/// them, and tells whether it did; a population in which one does is left as
/// it is.
pub fn system_boid_mating_attraction_checked(
    dt: u32,
    adults: &mut Vec<AdultBoid>,
    config: &MatingConfig,
) -> (done: bool)
    ensures
        done == distinct(adult_handles(old(adults)@)),
        !done ==> final(adults)@ == old(adults)@,
        done ==> final(adults)@.len() == old(adults)@.len() && forall|i: int|
            0 <= i < old(adults)@.len() ==> ({
                &&& (#[trigger] final(adults)@[i]).entity == old(adults)@[i].entity
                &&& final(adults)@[i].position == old(adults)@[i].position
                &&& final(adults)@[i].close_adults == old(adults)@[i].close_adults
                &&& final(adults)@[i].sambo == old(adults)@[i].sambo
                &&& final(adults)@[i].velocity.0 == old(adults)@[i].velocity.0.moved_by(
                    mating_push(old(adults)@[i], old(adults)@, dt, *config),
                )
            }),
{
    let handles = collect_handles(adults);
    if !are_distinct(&handles) {
        return false;
    }
    system_boid_mating_attraction(dt, adults, config);
    true
}

/// Squared radius within which a duck sees food.
pub const FOOD_VISIBILITY_RADIUS_2: i64 = 40_000_000_000;

/// Squared radius within which a duck eats food.
pub const FOOD_EATING_RADIUS_2: i64 = 625_000_000;

/// Acceleration toward the closest food.
pub const TOWARDS_FOOD_FACTOR: u32 = 120_000;

/// Acceleration of a duckling toward the closest adult.
pub const TOWARDS_ADULT_FACTOR: u32 = 50_000;

/// The tunables of feeding.
#[derive(Clone, Copy, Debug)]
pub struct FoodConfig {
    pub food_visibility_radius_2: i64,
    pub food_eating_radius_2: i64,
    pub towards_food_factor: u32,
}

impl Default for FoodConfig {
    fn default() -> (config: FoodConfig)
        ensures
            config.food_visibility_radius_2 == FOOD_VISIBILITY_RADIUS_2,
            config.food_eating_radius_2 == FOOD_EATING_RADIUS_2,
            config.towards_food_factor == TOWARDS_FOOD_FACTOR,
    {
        FoodConfig {
            food_visibility_radius_2: FOOD_VISIBILITY_RADIUS_2,
            food_eating_radius_2: FOOD_EATING_RADIUS_2,
            towards_food_factor: TOWARDS_FOOD_FACTOR,
        }
    }
}

/// The tunables of ducklings following adults.
#[derive(Clone, Copy, Debug)]
pub struct FollowConfig {
    pub visibility_radius_2: i64,
    pub towards_adult_factor: u32,
}

impl Default for FollowConfig {
    fn default() -> (config: FollowConfig)
        ensures
            config.visibility_radius_2 == VISIBILITY_RADIUS_2,
            config.towards_adult_factor == TOWARDS_ADULT_FACTOR,
    {
        FollowConfig {
            visibility_radius_2: VISIBILITY_RADIUS_2,
            towards_adult_factor: TOWARDS_ADULT_FACTOR,
        }
    }
}

/// The food that `duck` eats: the closest food in sight, if it is within the
/// eating radius.
pub open spec fn food_eaten_by(duck: Boid, foods: Seq<Target>, config: FoodConfig) -> Option<
    Entity,
> {
    match closest_target(duck.position, foods, config.food_visibility_radius_2 as int) {
        Some(k) => {
            if duck.position.dist2(foods[k].position) <= config.food_eating_radius_2 {
                Some(foods[k].entity)
            } else {
                None
            }
        },
        None => None,
    }
}

/// The velocity change that food gives `duck` over `dt`: toward the closest
/// food in sight, unless the duck eats it.
pub open spec fn food_push(duck: Boid, foods: Seq<Target>, dt: u32, config: FoodConfig) -> Offset {
    match closest_target(duck.position, foods, config.food_visibility_radius_2 as int) {
        Some(k) => {
            if duck.position.dist2(foods[k].position) <= config.food_eating_radius_2 {
                Offset::zero()
            } else {
                duck.position.to(foods[k].position).shrunk_to(
                    speed_change(config.towards_food_factor, dt),
                )
            }
        },
        None => Offset::zero(),
    }
}

/// Lets every duck eat the closest food in sight if it is within the eating
/// radius, and steers it toward that food otherwise. Returns, duck by duck,
/// the food it ate. Food that one duck ate is still seen by the ducks after
/// it: two ducks may report the same food.
pub fn system_boids_food(dt: u32, foods: &Vec<Target>, ducks: &mut Vec<Boid>, config: &FoodConfig)
    -> (eaten: Vec<Option<Entity>>)
    ensures
        final(ducks)@.len() == old(ducks)@.len(),
        eaten@.len() == old(ducks)@.len(),
        forall|i: int|
            0 <= i < old(ducks)@.len() ==> ({
                &&& (#[trigger] final(ducks)@[i]).entity == old(ducks)@[i].entity
                &&& final(ducks)@[i].position == old(ducks)@[i].position
                &&& final(ducks)@[i].velocity.0 == old(ducks)@[i].velocity.0.moved_by(
                    food_push(old(ducks)@[i], foods@, dt, *config),
                )
                &&& eaten@[i] == food_eaten_by(old(ducks)@[i], foods@, *config)
            }),
{
    let n = ducks.len();
    let mut eaten: Vec<Option<Entity>> = Vec::new();
    let mut i: usize = 0;
    while i < n
        invariant
            i <= n,
            n == ducks@.len(),
            n == old(ducks)@.len(),
            eaten@.len() == i,
            forall|k: int| i <= k < n ==> #[trigger] ducks@[k] == old(ducks)@[k],
            forall|k: int|
                0 <= k < i ==> ({
                    &&& (#[trigger] ducks@[k]).entity == old(ducks)@[k].entity
                    &&& ducks@[k].position == old(ducks)@[k].position
                    &&& ducks@[k].velocity.0 == old(ducks)@[k].velocity.0.moved_by(
                        food_push(old(ducks)@[k], foods@, dt, *config),
                    )
                    &&& eaten@[k] == food_eaten_by(old(ducks)@[k], foods@, *config)
                }),
        decreases n - i,
    {
        let duck = ducks[i];
        let closest = find_closest_target(duck.position, foods, config.food_visibility_radius_2);
        let mut meal: Option<Entity> = None;
        match closest {
            Some(k) => {
                let food = foods[k];
                if duck.position.distance_squared(&food.position)
                    <= config.food_eating_radius_2 as i128 {
                    meal = Some(food.entity);
                } else {
                    let speed = compute_speed_change(config.towards_food_factor, dt);
                    let push = duck.position.offset_to(&food.position).shrunk_to(speed);
                    ducks[i].velocity = Velocity(duck.velocity.0.shifted(&push));
                }
            },
            None => {},
        }
        eaten.push(meal);
        i += 1;
    }
    eaten
}

/// The velocity change that the adults give `duckling` over `dt`: toward the
/// closest adult in sight.
pub open spec fn parent_push(duckling: Boid, adults: Seq<Target>, dt: u32, config: FollowConfig)
    -> Offset {
    match closest_target(duckling.position, adults, config.visibility_radius_2 as int) {
        Some(k) => duckling.position.to(adults[k].position).shrunk_to(
            speed_change(config.towards_adult_factor, dt),
        ),
        None => Offset::zero(),
    }
}

/// Steers every duckling toward the closest adult in sight.
pub fn system_boids_ducklings_towards_adults(
    dt: u32,
    adults: &Vec<Target>,
    ducklings: &mut Vec<Boid>,
    config: &FollowConfig,
)
    ensures
        final(ducklings)@.len() == old(ducklings)@.len(),
        forall|i: int|
            0 <= i < old(ducklings)@.len() ==> ({
                &&& (#[trigger] final(ducklings)@[i]).entity == old(ducklings)@[i].entity
                &&& final(ducklings)@[i].position == old(ducklings)@[i].position
                &&& final(ducklings)@[i].velocity.0 == old(ducklings)@[i].velocity.0.moved_by(
                    parent_push(old(ducklings)@[i], adults@, dt, *config),
                )
            }),
{
    let n = ducklings.len();
    let mut i: usize = 0;
    while i < n
        invariant
            i <= n,
            n == ducklings@.len(),
            n == old(ducklings)@.len(),
            forall|k: int| i <= k < n ==> #[trigger] ducklings@[k] == old(ducklings)@[k],
            forall|k: int|
                0 <= k < i ==> ({
                    &&& (#[trigger] ducklings@[k]).entity == old(ducklings)@[k].entity
                    &&& ducklings@[k].position == old(ducklings)@[k].position
                    &&& ducklings@[k].velocity.0 == old(ducklings)@[k].velocity.0.moved_by(
                        parent_push(old(ducklings)@[k], adults@, dt, *config),
                    )
                }),
        decreases n - i,
    {
        let duckling = ducklings[i];
        let closest = find_closest_target(duckling.position, adults, config.visibility_radius_2);
        match closest {
            Some(k) => {
                let speed = compute_speed_change(config.towards_adult_factor, dt);
                let push = duckling.position.offset_to(&adults[k].position).shrunk_to(speed);
                ducklings[i].velocity = Velocity(duckling.velocity.0.shifted(&push));
            },
            None => {},
        }
        i += 1;
    }
}

} // verus!

//! Flocking: separation, alignment and cohesion.

use vstd::prelude::*;
use crate::entity::{are_distinct, distinct, entity_index_get, index_handles, leads_home, Entity};
use crate::fixed::{lemma_div_toward_zero_bounds, lemma_mean_bounds, saturate, scale, UNIT};
use crate::movement::Velocity;
use crate::vec2::{Offset, Vec2, Wide, SPAN};

verus! {

/// Squared radius within which boids push each other apart.
pub const PROTECTED_RADIUS_2: i64 = 2_500_000_000;

/// Share of the summed offsets from close boids that is added to the velocity.
pub const AVOID_FACTOR: i32 = 200;

/// Squared radius within which boids see each other.
pub const VISIBILITY_RADIUS_2: i64 = 10_000_000_000;

/// Share of the neighbours' mean velocity that is added to the velocity.
pub const ALIGN_FACTOR: i32 = 50;

/// Share of the offset to the neighbours' mean position that is added to the
/// velocity.
pub const COHESION_FACTOR: i32 = 10;

/// An agent that flocks.
#[derive(Clone, Copy, Debug)]
pub struct Boid {
    pub entity: Entity,
    pub position: Vec2,
    pub velocity: Velocity,
}

/// The tunables of flocking.
#[derive(Clone, Copy, Debug)]
pub struct FlockingConfig {
    pub protected_radius_2: i64,
    pub avoid_factor: i32,
    pub visibility_radius_2: i64,
    pub align_factor: i32,
    pub cohesion_factor: i32,
}

impl Default for FlockingConfig {
    fn default() -> (config: FlockingConfig)
        ensures
            config.protected_radius_2 == PROTECTED_RADIUS_2,
            config.avoid_factor == AVOID_FACTOR,
            config.visibility_radius_2 == VISIBILITY_RADIUS_2,
            config.align_factor == ALIGN_FACTOR,
            config.cohesion_factor == COHESION_FACTOR,
    {
        FlockingConfig {
            protected_radius_2: PROTECTED_RADIUS_2,
            avoid_factor: AVOID_FACTOR,
            visibility_radius_2: VISIBILITY_RADIUS_2,
            align_factor: ALIGN_FACTOR,
            cohesion_factor: COHESION_FACTOR,
        }
    }
}

/// Whether `other` is another boid within the squared radius of `me`.
pub open spec fn is_neighbor(me: Boid, other: Boid, radius_2: int) -> bool {
    other.entity != me.entity && me.position.dist2(other.position) <= radius_2
}

/// What `other` adds to the separation of `me`: the offset from `other` to
/// `me` if `other` is a neighbour, else nothing.
pub open spec fn separation_term(me: Boid, other: Boid, radius_2: int) -> Offset {
    if is_neighbor(me, other, radius_2) {
        other.position.to(me.position)
    } else {
        Offset::zero()
    }
}

/// The sum of what each of `others` adds to the separation of `me`.
pub open spec fn separation_sum(me: Boid, others: Seq<Boid>, radius_2: int) -> Offset
    decreases others.len(),
{
    if others.len() == 0 {
        Offset::zero()
    } else {
        separation_sum(me, others.drop_last(), radius_2).plus(
            separation_term(me, others.last(), radius_2),
        )
    }
}

/// The velocity change that separation gives `me`.
pub open spec fn separation_push(me: Boid, others: Seq<Boid>, config: FlockingConfig) -> Offset {
    separation_sum(me, others, config.protected_radius_2 as int).scaled(config.avoid_factor as int)
}

/// A neighbour adds to the separation exactly the offset that leads from it to
/// `me`: with the neighbour taken out of the population, the sum lacks that
/// offset and nothing else. The offset points away from the neighbour: its
/// scalar product with the direction from the neighbour to `me` is the squared
/// distance of the two.
pub proof fn lemma_separation_points_away(me: Boid, others: Seq<Boid>, radius_2: int, j: int)
    requires
        0 <= j < others.len(),
        is_neighbor(me, others[j], radius_2),
    ensures
        separation_sum(me, others, radius_2) == separation_sum(me, others.remove(j), radius_2).plus(
            others[j].position.to(me.position),
        ),
        others[j].position.to(me.position).dot(others[j].position.to(me.position))
            == me.position.dist2(others[j].position),
        me.position != others[j].position ==> others[j].position.to(me.position).dot(
            others[j].position.to(me.position),
        ) > 0,
    decreases others.len(),
{
    crate::vec2::lemma_len2_zero(others[j].position.to(me.position));
    crate::vec2::lemma_dist2_symmetric(me.position, others[j].position);
    if j == others.len() - 1 {
        assert(others.remove(j) == others.drop_last());
    } else {
        lemma_separation_points_away(me, others.drop_last(), radius_2, j);
        assert(others.remove(j).drop_last() == others.drop_last().remove(j));
        assert(others.remove(j).last() == others.last());
        assert(others.drop_last()[j] == others[j]);
    }
}

/// How separation changes the velocity of `me`: the new velocity less the
/// old one.
pub open spec fn separation_change(me: Boid, others: Seq<Boid>, config: FlockingConfig) -> Offset {
    me.velocity.0.moved_by(separation_push(me, others, config)).exact().minus(
        me.velocity.0.exact(),
    )
}

/// Along one axis, a speed `v` pushed by the share `factor` of the offset `d`
/// changes toward the side of `d` or not at all. It does change where the
/// share reaches a whole step and the sum stays within the stored range.
proof fn lemma_axis_is_pushed(v: i32, d: int, factor: int)
    requires
        factor > 0,
    ensures
        (saturate(v + scale(d, factor)) - v) * d >= 0,
        saturate(v + scale(d, factor)) - v != 0 ==> (saturate(v + scale(d, factor)) - v) * d > 0,
        (d * factor >= UNIT || d * factor <= -UNIT) && i32::MIN <= v + scale(d, factor) <= i32::MAX
            ==> saturate(v + scale(d, factor)) - v != 0,
{
    let a = d * factor;
    let p = scale(d, factor);
    let c = saturate(v + p) - v;
    lemma_div_toward_zero_bounds(a, UNIT as int);
    assert(d >= 0 ==> a >= 0) by (nonlinear_arith)
        requires
            a == d * factor,
            factor > 0,
    ;
    assert(d <= 0 ==> a <= 0) by (nonlinear_arith)
        requires
            a == d * factor,
            factor > 0,
    ;
    assert(d == 0 ==> a == 0) by (nonlinear_arith)
        requires
            a == d * factor,
    ;
    assert(d >= 0 ==> 0 <= c <= p);
    assert(d <= 0 ==> p <= c <= 0);
    assert(c * d >= 0 && (c != 0 ==> c * d > 0)) by (nonlinear_arith)
        requires
            d >= 0 ==> c >= 0,
            d <= 0 ==> c <= 0,
            d == 0 ==> c == 0,
    ;
    if a >= UNIT {
        assert(p >= 1) by (nonlinear_arith)
            requires
                a >= 1000,
                a < (p + 1) * 1000,
        ;
    }
    if a <= -UNIT {
        assert(p <= -1) by (nonlinear_arith)
            requires
                a <= -1000,
                (p - 1) * 1000 < a,
        ;
    }
}

/// Two boids within the protected radius of each other push each other
/// apart. With nobody else about, the push on each is the share
/// `avoid_factor` of the offset that leads from the other to it, and its
/// velocity changes toward the side away from the other or not at all: the
/// scalar product of the change with that offset is positive exactly where
/// the velocity changes. It does change where, on some axis, the share of the
/// offset reaches a whole step and the sum stays within the stored range; it
/// stays where the share rounds to nothing on both axes, as for two boids at
/// one place, or the velocity already stands at the end of its range.
pub proof fn lemma_pair_is_pushed_apart(boids: Seq<Boid>, i: int, config: FlockingConfig)
    requires
        boids.len() == 2,
        0 <= i < 2,
        boids[0].entity != boids[1].entity,
        boids[0].position.dist2(boids[1].position) <= config.protected_radius_2,
        config.avoid_factor > 0,
    ensures
        separation_push(boids[i], boids, config) == boids[1 - i].position.to(
            boids[i].position,
        ).scaled(config.avoid_factor as int),
        separation_change(boids[i], boids, config).dot(
            boids[1 - i].position.to(boids[i].position),
        ) >= 0,
        separation_change(boids[i], boids, config).dot(
            boids[1 - i].position.to(boids[i].position),
        ) > 0 <==> boids[i].velocity.0.moved_by(separation_push(boids[i], boids, config))
            != boids[i].velocity.0,
        (boids[1 - i].position.to(boids[i].position).x * config.avoid_factor >= UNIT
            || boids[1 - i].position.to(boids[i].position).x * config.avoid_factor <= -UNIT)
            && i32::MIN <= boids[i].velocity.0.x + separation_push(boids[i], boids, config).x
            <= i32::MAX ==> separation_change(boids[i], boids, config).dot(
            boids[1 - i].position.to(boids[i].position),
        ) > 0,
        (boids[1 - i].position.to(boids[i].position).y * config.avoid_factor >= UNIT
            || boids[1 - i].position.to(boids[i].position).y * config.avoid_factor <= -UNIT)
            && i32::MIN <= boids[i].velocity.0.y + separation_push(boids[i], boids, config).y
            <= i32::MAX ==> separation_change(boids[i], boids, config).dot(
            boids[1 - i].position.to(boids[i].position),
        ) > 0,
{
    let me = boids[i];
    let other = boids[1 - i];
    let radius_2 = config.protected_radius_2 as int;
    let d = other.position.to(me.position);
    crate::vec2::lemma_dist2_symmetric(boids[0].position, boids[1].position);
    assert(is_neighbor(me, other, radius_2));
    assert(separation_sum(me, boids, radius_2) == d) by {
        reveal_with_fuel(separation_sum, 3);
        let first = boids.drop_last();
        assert(first.len() == 1);
        assert(first.last() == boids[0]);
        assert(boids.last() == boids[1]);
        assert(first.drop_last().len() == 0);
        assert(separation_sum(me, first.drop_last(), radius_2) == Offset::zero());
        assert(separation_term(me, me, radius_2) == Offset::zero());
        assert(separation_term(me, other, radius_2) == d);
    }
    let factor = config.avoid_factor as int;
    let push = separation_push(me, boids, config);
    assert(push == d.scaled(factor));
    let v = me.velocity.0;
    lemma_axis_is_pushed(v.x, d.x, factor);
    lemma_axis_is_pushed(v.y, d.y, factor);
    let change = separation_change(me, boids, config);
    assert(change.x == saturate(v.x + scale(d.x, factor)) - v.x);
    assert(change.y == saturate(v.y + scale(d.y, factor)) - v.y);
    let along_x = change.x * d.x;
    let along_y = change.y * d.y;
    assert(along_x == (saturate(v.x + scale(d.x, factor)) - v.x) * d.x);
    assert(along_y == (saturate(v.y + scale(d.y, factor)) - v.y) * d.y);
    assert(change.x == 0 ==> along_x == 0) by (nonlinear_arith)
        requires
            along_x == change.x * d.x,
    ;
    assert(change.y == 0 ==> along_y == 0) by (nonlinear_arith)
        requires
            along_y == change.y * d.y,
    ;
    assert(change.dot(d) == along_x + along_y);
    assert(v.moved_by(push) != v <==> (change.x != 0 || change.y != 0));
}

/// What the neighbours of a boid add up to.
pub struct Flock {
    pub count: int,
    pub velocity_sum: Offset,
    pub position_sum: Offset,
}

/// The neighbours of `me` among `others`: how many, and the sums of their
/// velocities and positions.
pub open spec fn flock_of(me: Boid, others: Seq<Boid>, radius_2: int) -> Flock
    decreases others.len(),
{
    if others.len() == 0 {
        Flock { count: 0, velocity_sum: Offset::zero(), position_sum: Offset::zero() }
    } else {
        let rest = flock_of(me, others.drop_last(), radius_2);
        let other = others.last();
        if is_neighbor(me, other, radius_2) {
            Flock {
                count: rest.count + 1,
                velocity_sum: rest.velocity_sum.plus(other.velocity.0.exact()),
                position_sum: rest.position_sum.plus(other.position.exact()),
            }
        } else {
            rest
        }
    }
}

/// The velocity change that alignment and cohesion give `me`: a share of the
/// neighbours' mean velocity plus a share of the offset to their mean
/// position; nothing without neighbours.
pub open spec fn flock_push(me: Boid, others: Seq<Boid>, config: FlockingConfig) -> Offset {
    let flock = flock_of(me, others, config.visibility_radius_2 as int);
    if flock.count == 0 {
        Offset::zero()
    } else {
        flock.velocity_sum.divided(flock.count).scaled(config.align_factor as int).plus(
            flock.position_sum.divided(flock.count).minus(me.position.exact()).scaled(
                config.cohesion_factor as int,
            ),
        )
    }
}

/// A boid without neighbours in sight gets nothing from alignment and
/// cohesion: its velocity stays as it is.
pub proof fn lemma_no_neighbors_no_push(me: Boid, others: Seq<Boid>, config: FlockingConfig)
    requires
        forall|j: int|
            0 <= j < others.len() ==> !is_neighbor(
                me,
                #[trigger] others[j],
                config.visibility_radius_2 as int,
            ),
    ensures
        flock_of(me, others, config.visibility_radius_2 as int).count == 0,
        flock_push(me, others, config) == Offset::zero(),
        me.velocity.0.moved_by(flock_push(me, others, config)) == me.velocity.0,
    decreases others.len(),
{
    if others.len() > 0 {
        assert forall|j: int| 0 <= j < others.drop_last().len() implies !is_neighbor(
            me,
            #[trigger] others.drop_last()[j],
            config.visibility_radius_2 as int,
        ) by {
            assert(others.drop_last()[j] == others[j]);
        }
        lemma_no_neighbors_no_push(me, others.drop_last(), config);
        assert(!is_neighbor(me, others[others.len() - 1], config.visibility_radius_2 as int));
    }
}

/// Computes the separation sum of boid `i`.
fn compute_separation_sum(i: usize, boids: &Vec<Boid>, radius_2: i64) -> (sum: Wide)
    requires
        i < boids@.len(),
    ensures
        sum@ == separation_sum(boids@[i as int], boids@, radius_2 as int),
        sum@.within(boids@.len() * SPAN),
{
    let n = boids.len();
    let me = boids[i];
    let mut sum = Wide::zero();
    let mut j: usize = 0;
    while j < n
        invariant
            j <= n,
            n == boids@.len(),
            i < n,
            me == boids@[i as int],
            sum@ == separation_sum(me, boids@.take(j as int), radius_2 as int),
            sum@.within(j * SPAN),
        decreases n - j,
    {
        proof {
            assert(boids@.take(j + 1).drop_last() == boids@.take(j as int));
        }
        let other = boids[j];
        if other.entity != me.entity && me.position.distance_squared(&other.position)
            <= radius_2 as i128 {
            let apart = other.position.offset_to(&me.position);
            sum = Wide { x: sum.x + apart.x, y: sum.y + apart.y };
        }
        j += 1;
    }
    proof {
        assert(boids@.take(n as int) == boids@);
    }
    sum
}

/// Computes the velocity change that alignment and cohesion give boid `i`, if
/// it has neighbours in sight.
fn compute_flock_push(i: usize, boids: &Vec<Boid>, config: &FlockingConfig) -> (push: Option<Wide>)
    requires
        i < boids@.len(),
    ensures
        push is Some <==> flock_of(boids@[i as int], boids@, config.visibility_radius_2 as int).count
            != 0,
        push matches Some(p) ==> p@ == flock_push(boids@[i as int], boids@, *config) && p@.within(
            0x1_0000_0000_0000_0000,
        ),
        push is None ==> flock_push(boids@[i as int], boids@, *config) == Offset::zero(),
{
    let n = boids.len();
    let me = boids[i];
    let mut count: usize = 0;
    let mut velocity_sum = Wide::zero();
    let mut position_sum = Wide::zero();
    let mut j: usize = 0;
    while j < n
        invariant
            j <= n,
            n == boids@.len(),
            i < n,
            me == boids@[i as int],
            count <= j,
            count == flock_of(me, boids@.take(j as int), config.visibility_radius_2 as int).count,
            velocity_sum@ == flock_of(
                me,
                boids@.take(j as int),
                config.visibility_radius_2 as int,
            ).velocity_sum,
            position_sum@ == flock_of(
                me,
                boids@.take(j as int),
                config.visibility_radius_2 as int,
            ).position_sum,
            count * (-0x8000_0000) <= velocity_sum.x <= count * 0x7FFF_FFFF,
            count * (-0x8000_0000) <= velocity_sum.y <= count * 0x7FFF_FFFF,
            count * (-0x8000_0000) <= position_sum.x <= count * 0x7FFF_FFFF,
            count * (-0x8000_0000) <= position_sum.y <= count * 0x7FFF_FFFF,
        decreases n - j,
    {
        proof {
            assert(boids@.take(j + 1).drop_last() == boids@.take(j as int));
        }
        let other = boids[j];
        if other.entity != me.entity && me.position.distance_squared(&other.position)
            <= config.visibility_radius_2 as i128 {
            count += 1;
            velocity_sum = Wide {
                x: velocity_sum.x + other.velocity.0.x as i128,
                y: velocity_sum.y + other.velocity.0.y as i128,
            };
            position_sum = Wide {
                x: position_sum.x + other.position.x as i128,
                y: position_sum.y + other.position.y as i128,
            };
        }
        j += 1;
    }
    proof {
        assert(boids@.take(n as int) == boids@);
    }
    if count == 0 {
        return None;
    }
    proof {
        lemma_mean_bounds(velocity_sum.x as int, count as int, -0x8000_0000, 0x7FFF_FFFF);
        lemma_mean_bounds(velocity_sum.y as int, count as int, -0x8000_0000, 0x7FFF_FFFF);
        lemma_mean_bounds(position_sum.x as int, count as int, -0x8000_0000, 0x7FFF_FFFF);
        lemma_mean_bounds(position_sum.y as int, count as int, -0x8000_0000, 0x7FFF_FFFF);
    }
    let mean_velocity = velocity_sum.divided(count as i128);
    let mean_position = position_sum.divided(count as i128);
    let inward = Wide {
        x: mean_position.x - me.position.x as i128,
        y: mean_position.y - me.position.y as i128,
    };
    let align = mean_velocity.scaled(config.align_factor);
    let cohere = inward.scaled(config.cohesion_factor);
    Some(align.plus(&cohere))
}

/// Adds `pushes[i]` to the velocity of boid `i`, for every boid.
fn apply_pushes(boids: &mut Vec<Boid>, pushes: &Vec<Wide>)
    requires
        pushes@.len() == old(boids)@.len(),
        forall|k: int|
            0 <= k < pushes@.len() ==> (#[trigger] pushes@[k])@.within(i128::MAX - 0x8000_0000),
    ensures
        final(boids)@.len() == old(boids)@.len(),
        forall|k: int|
            0 <= k < old(boids)@.len() ==> ({
                &&& (#[trigger] final(boids)@[k]).entity == old(boids)@[k].entity
                &&& final(boids)@[k].position == old(boids)@[k].position
                &&& final(boids)@[k].velocity.0 == old(boids)@[k].velocity.0.moved_by(pushes@[k]@)
            }),
{
    let n = boids.len();
    let mut i: usize = 0;
    while i < n
        invariant
            i <= n,
            n == boids@.len(),
            n == old(boids)@.len(),
            pushes@.len() == n,
            forall|k: int|
                0 <= k < n ==> (#[trigger] pushes@[k])@.within(i128::MAX - 0x8000_0000),
            forall|k: int| i <= k < n ==> #[trigger] boids@[k] == old(boids)@[k],
            forall|k: int|
                0 <= k < i ==> ({
                    &&& (#[trigger] boids@[k]).entity == old(boids)@[k].entity
                    &&& boids@[k].position == old(boids)@[k].position
                    &&& boids@[k].velocity.0 == old(boids)@[k].velocity.0.moved_by(pushes@[k]@)
                }),
        decreases n - i,
    {
        let velocity = boids[i].velocity.0;
        boids[i].velocity = Velocity(velocity.shifted(&pushes[i]));
        i += 1;
    }
}

/// Pushes every boid away from the boids within the protected radius: the sum
/// of the offsets from each of them, scaled by the avoid factor, is added to
/// its velocity.
pub fn system_boid_separation(boids: &mut Vec<Boid>, config: &FlockingConfig)
    ensures
        final(boids)@.len() == old(boids)@.len(),
        forall|i: int|
            0 <= i < old(boids)@.len() ==> ({
                &&& (#[trigger] final(boids)@[i]).entity == old(boids)@[i].entity
                &&& final(boids)@[i].position == old(boids)@[i].position
                &&& final(boids)@[i].velocity.0 == old(boids)@[i].velocity.0.moved_by(
                    separation_push(old(boids)@[i], old(boids)@, *config),
                )
            }),
{
    let n = boids.len();
    let mut pushes: Vec<Wide> = Vec::new();
    let mut i: usize = 0;
    while i < n
        invariant
            i <= n,
            n == boids@.len(),
            boids@ == old(boids)@,
            pushes@.len() == i,
            forall|k: int|
                0 <= k < i ==> (#[trigger] pushes@[k])@ == separation_push(
                    boids@[k],
                    boids@,
                    *config,
                ) && pushes@[k]@.within(i128::MAX - 0x8000_0000),
        decreases n - i,
    {
        let sum = compute_separation_sum(i, boids, config.protected_radius_2);
        proof {
            crate::fixed::lemma_product_bound(
                n as int,
                SPAN as int,
                0xFFFF_FFFF_FFFF_FFFF,
                SPAN as int,
            );
        }
        let push = sum.scaled(config.avoid_factor);
        pushes.push(push);
        i += 1;
    }
    apply_pushes(boids, &pushes);
}

/// The handles of the boids, in order.
pub open spec fn handles_of(boids: Seq<Boid>) -> Seq<Entity> {
    Seq::new(boids.len(), |i: int| boids[i].entity)
}

/// Steers every boid with neighbours in sight along their mean velocity and
/// toward their mean position. In a first pass the means are taken, over the
/// population as it was handed in, and kept under the handle of each boid; in
/// a second pass every boid takes what is kept under its handle.
pub fn system_boid_alignment_and_cohesion(boids: &mut Vec<Boid>, config: &FlockingConfig)
    requires
        distinct(handles_of(old(boids)@)),
    ensures
        final(boids)@.len() == old(boids)@.len(),
        forall|i: int|
            0 <= i < old(boids)@.len() ==> ({
                &&& (#[trigger] final(boids)@[i]).entity == old(boids)@[i].entity
                &&& final(boids)@[i].position == old(boids)@[i].position
                &&& final(boids)@[i].velocity.0 == old(boids)@[i].velocity.0.moved_by(
                    flock_push(old(boids)@[i], old(boids)@, *config),
                )
            }),
{
    let n = boids.len();
    let mut pushes: Vec<Wide> = Vec::new();
    let mut handles: Vec<Entity> = Vec::new();
    let mut has_push: Vec<bool> = Vec::new();
    let mut i: usize = 0;
    while i < n
        invariant
            i <= n,
            n == boids@.len(),
            boids@ == old(boids)@,
            pushes@.len() == i,
            handles@.len() == i,
            has_push@.len() == i,
            forall|k: int| 0 <= k < i ==> #[trigger] handles@[k] == boids@[k].entity,
            forall|k: int|
                0 <= k < i ==> (#[trigger] pushes@[k])@ == flock_push(boids@[k], boids@, *config)
                    && pushes@[k]@.within(i128::MAX - 0x8000_0000),
            forall|k: int|
                0 <= k < i && !#[trigger] has_push@[k] ==> flock_push(boids@[k], boids@, *config)
                    == Offset::zero(),
        decreases n - i,
    {
        let push = compute_flock_push(i, boids, config);
        handles.push(boids[i].entity);
        match push {
            Some(p) => {
                pushes.push(p);
                has_push.push(true);
            },
            None => {
                pushes.push(Wide::zero());
                has_push.push(false);
            },
        }
        i += 1;
    }
    assert(handles@ =~= handles_of(boids@));
    let index = index_handles(&handles, &has_push);
    let mut i: usize = 0;
    while i < n
        invariant
            i <= n,
            n == boids@.len(),
            n == old(boids)@.len(),
            pushes@.len() == n,
            handles@.len() == n,
            has_push@.len() == n,
            leads_home(index@, handles@, has_push@),
            forall|k: int| 0 <= k < n ==> #[trigger] handles@[k] == old(boids)@[k].entity,
            forall|k: int|
                0 <= k < n ==> (#[trigger] pushes@[k])@ == flock_push(
                    old(boids)@[k],
                    old(boids)@,
                    *config,
                ) && pushes@[k]@.within(i128::MAX - 0x8000_0000),
            forall|k: int|
                0 <= k < n && !#[trigger] has_push@[k] ==> flock_push(
                    old(boids)@[k],
                    old(boids)@,
                    *config,
                ) == Offset::zero(),
            forall|k: int| i <= k < n ==> #[trigger] boids@[k] == old(boids)@[k],
            forall|k: int|
                0 <= k < i ==> ({
                    &&& (#[trigger] boids@[k]).entity == old(boids)@[k].entity
                    &&& boids@[k].position == old(boids)@[k].position
                    &&& boids@[k].velocity.0 == old(boids)@[k].velocity.0.moved_by(
                        flock_push(old(boids)@[k], old(boids)@, *config),
                    )
                }),
        decreases n - i,
    {
        let me = boids[i];
        proof {
            assert(handles@[i as int] == me.entity);
            assert(has_push@[i as int] || !has_push@[i as int]);
        }
        match entity_index_get(&index, me.entity) {
            Some(k) => {
                boids[i].velocity = Velocity(me.velocity.0.shifted(&pushes[k]));
            },
            None => {},
        }
        i += 1;
    }
}

/// Steers the boids by alignment and cohesion if no handle occurs twice among
/// them, and tells whether it did; a population in which one does is left as
/// it is.
pub fn system_boid_alignment_and_cohesion_checked(boids: &mut Vec<Boid>, config: &FlockingConfig)
    -> (done: bool)
    ensures
        done == distinct(handles_of(old(boids)@)),
        !done ==> final(boids)@ == old(boids)@,
        done ==> final(boids)@.len() == old(boids)@.len() && forall|i: int|
            0 <= i < old(boids)@.len() ==> ({
                &&& (#[trigger] final(boids)@[i]).entity == old(boids)@[i].entity
                &&& final(boids)@[i].position == old(boids)@[i].position
                &&& final(boids)@[i].velocity.0 == old(boids)@[i].velocity.0.moved_by(
                    flock_push(old(boids)@[i], old(boids)@, *config),
                )
            }),
{
    let n = boids.len();
    let mut handles: Vec<Entity> = Vec::new();
    let mut i: usize = 0;
    while i < n
        invariant
            i <= n,
            n == boids@.len(),
            boids@ == old(boids)@,
            handles@.len() == i,
            forall|k: int| 0 <= k < i ==> #[trigger] handles@[k] == boids@[k].entity,
        decreases n - i,
    {
        handles.push(boids[i].entity);
        i += 1;
    }
    assert(handles@ =~= handles_of(boids@));
    if !are_distinct(&handles) {
        return false;
    }
    system_boid_alignment_and_cohesion(boids, config);
    true
}

} // verus!

//! Pairing of adults, upkeep of the pairs and breeding.

use vstd::prelude::*;
use crate::duck_boid::{close_adults_of, is_close, lemma_close_adults_complete,
    lemma_close_adults_entries, AdultBoid};
use crate::entity::{entity_set_contains, entity_set_insert, entity_set_new, Entity, PLACEHOLDER};
use crate::fixed::{div_toward_zero, quotient, saturate, saturate_i32};
use crate::life_cycles::TIME_FACTOR;
use crate::target::{first_min, is_first_min, lemma_first_min_is, lemma_first_min_none, Target};
use crate::vec2::Vec2;

verus! {

/// How long a pair is together before its sign is shown.
pub const VISIBLE_RELATIONSHIP_THRESHOLD: i32 = 500;

/// Squared distance of the partners above which a pair breaks up.
pub const DISBAND_RELATIONSHIP_DISTANCE_2: i64 = 10_000_000_000;

/// How far above the middle of the partners the sign of a pair floats.
pub const HEART_HEIGHT_OFFSET: i32 = 25_000;

/// How long a pair breeds before an egg is laid.
pub const BREEDING_DURATION: i32 = 4 * TIME_FACTOR;

/// An exclusive pair of two adults.
#[derive(Clone, Copy, Debug)]
pub struct Relationship {
    pub partner1: Entity,
    pub partner2: Entity,
    pub duration: i32,
}

impl Default for Relationship {
    fn default() -> (relationship: Relationship)
        ensures
            relationship.partner1 == PLACEHOLDER,
            relationship.partner2 == PLACEHOLDER,
            relationship.duration == 0,
    {
        Relationship { partner1: PLACEHOLDER, partner2: PLACEHOLDER, duration: 0 }
    }
}

/// The mark on a partner that names its relationship.
#[derive(Clone, Copy, Debug)]
pub struct Sambo {
    pub relationship_entity: Entity,
}

/// How long a pair has been breeding since the last egg.
#[derive(Clone, Copy, Debug)]
pub struct BreedingProgress(pub i32);

impl Default for BreedingProgress {
    fn default() -> (progress: BreedingProgress)
        ensures
            progress.0 == 0,
    {
        BreedingProgress(0)
    }
}

/// Whether `entity` is the handle of one of the first `upto` adults that has
/// no partner.
pub open spec fn is_present(candidates: Seq<AdultBoid>, upto: int, entity: Entity) -> bool {
    exists|j: int|
        0 <= j < upto && j < candidates.len() && (#[trigger] candidates[j]).entity == entity
            && candidates[j].sambo is None
}

/// The pairs made so far and the adults that are in one of them.
pub struct Matching {
    pub covered: Set<Entity>,
    pub pairs: Seq<Relationship>,
}

/// Whether adult `me` pairs up, given who is covered already: it has no
/// partner and is not covered, it has a close adult, and the first of them is
/// another adult that has no partner and is not covered either.
pub open spec fn pairs_up(me: AdultBoid, covered: Set<Entity>, candidates: Seq<AdultBoid>) -> bool {
    &&& me.sambo is None
    &&& me.close_adults.0@.len() > 0
    &&& !covered.contains(me.entity)
    &&& me.close_adults.0@[0].1 != me.entity
    &&& is_present(candidates, candidates.len() as int, me.close_adults.0@[0].1)
    &&& !covered.contains(me.close_adults.0@[0].1)
}

/// The matching after the first `upto` adults had their turn, in order:
/// each one that pairs up takes the first of its close adults, and both are
/// covered from then on.
pub open spec fn matching_of(candidates: Seq<AdultBoid>, upto: int) -> Matching
    decreases upto,
{
    if upto <= 0 {
        Matching { covered: Set::empty(), pairs: Seq::empty() }
    } else {
        let before = matching_of(candidates, upto - 1);
        let me = candidates[upto - 1];
        if pairs_up(me, before.covered, candidates) {
            Matching {
                covered: before.covered.insert(me.entity).insert(me.close_adults.0@[0].1),
                pairs: before.pairs.push(
                    Relationship {
                        partner1: me.entity,
                        partner2: me.close_adults.0@[0].1,
                        duration: 0,
                    },
                ),
            }
        } else {
            before
        }
    }
}

/// Pairs up the adults without a partner, greedily and in population order:
/// each of them that is not yet covered takes the first of its close adults,
/// if that one is another adult, has no partner either and is not yet covered.
/// Returns the new relationships; an adult that has a partner is in none of
/// them.
pub fn system_build_relationships(candidates: &Vec<AdultBoid>) -> (pairs: Vec<Relationship>)
    ensures
        pairs@ == matching_of(candidates@, candidates@.len() as int).pairs,
{
    let n = candidates.len();
    let mut present = entity_set_new();
    let mut i: usize = 0;
    while i < n
        invariant
            i <= n,
            n == candidates@.len(),
            forall|e: Entity| present@.contains(e) <==> is_present(candidates@, i as int, e),
        decreases n - i,
    {
        let entity = candidates[i].entity;
        let single = candidates[i].sambo.is_none();
        let ghost before = present@;
        if single {
            entity_set_insert(&mut present, entity);
        }
        proof {
            assert forall|e: Entity| present@.contains(e) <==> is_present(
                candidates@,
                i + 1,
                e,
            ) by {
                if present@.contains(e) {
                    if single && e == entity {
                        assert(candidates@[i as int].entity == e);
                    } else {
                        assert(before.contains(e));
                        let j = choose|j: int|
                            0 <= j < i && j < candidates@.len() && (
                            #[trigger] candidates@[j]).entity == e && candidates@[j].sambo is None;
                        assert(candidates@[j].entity == e);
                    }
                }
                if is_present(candidates@, i + 1, e) {
                    let j = choose|j: int|
                        0 <= j < i + 1 && j < candidates@.len() && (
                        #[trigger] candidates@[j]).entity == e && candidates@[j].sambo is None;
                    if j < i {
                        assert(is_present(candidates@, i as int, e));
                    }
                }
            }
        }
        i += 1;
    }
    let mut covered = entity_set_new();
    let mut pairs: Vec<Relationship> = Vec::new();
    let mut i: usize = 0;
    while i < n
        invariant
            i <= n,
            n == candidates@.len(),
            forall|e: Entity| present@.contains(e) <==> is_present(candidates@, n as int, e),
            covered@ == matching_of(candidates@, i as int).covered,
            pairs@ == matching_of(candidates@, i as int).pairs,
        decreases n - i,
    {
        let me = &candidates[i];
        let ghost before = matching_of(candidates@, i as int);
        let mut paired = false;
        if me.sambo.is_none() && me.close_adults.0.len() > 0 && !entity_set_contains(
            &covered,
            me.entity,
        ) {
            let other = me.close_adults.0[0].1;
            assert(other == candidates@[i as int].close_adults.0@[0].1);
            assert(present@.contains(other) <==> is_present(candidates@, n as int, other));
            assert(covered@ == before.covered);
            if other != me.entity && entity_set_contains(&present, other) && !entity_set_contains(
                &covered,
                other,
            ) {
                entity_set_insert(&mut covered, me.entity);
                entity_set_insert(&mut covered, other);
                pairs.push(Relationship { partner1: me.entity, partner2: other, duration: 0 });
                paired = true;
            }
        }
        proof {
            assert(paired == pairs_up(candidates@[i as int], before.covered, candidates@));
            assert(covered@ =~= matching_of(candidates@, i + 1).covered);
            assert(pairs@ =~= matching_of(candidates@, i + 1).pairs);
        }
        i += 1;
    }
    pairs
}

/// Whether `entity` is one of the two partners.
pub open spec fn involves(relationship: Relationship, entity: Entity) -> bool {
    relationship.partner1 == entity || relationship.partner2 == entity
}

/// Whether an adult is a partner in both relationships.
pub open spec fn share_partner(a: Relationship, b: Relationship) -> bool {
    involves(b, a.partner1) || involves(b, a.partner2)
}

/// Whether one of the first `upto` candidates has the handle of the first
/// partner and the second partner as the first of its close adults.
pub open spec fn took_first_close_adult(
    candidates: Seq<AdultBoid>,
    upto: int,
    relationship: Relationship,
) -> bool {
    exists|i: int|
        0 <= i < upto && i < candidates.len() && (#[trigger] candidates[i]).entity
            == relationship.partner1 && candidates[i].sambo is None
            && candidates[i].close_adults.0@.len() > 0 && candidates[i].close_adults.0@[0].1
            == relationship.partner2
}

/// What holds of every matching: each pair joins two different candidates, the
/// second being the first close adult of the first; the covered adults are
/// exactly the partners; and no adult is in two pairs.
#[verifier::rlimit(60)]
pub proof fn lemma_matching_is_exclusive(candidates: Seq<AdultBoid>, upto: int)
    requires
        0 <= upto <= candidates.len(),
    ensures
        forall|k: int|
            0 <= k < matching_of(candidates, upto).pairs.len() ==> ({
                let pair = #[trigger] matching_of(candidates, upto).pairs[k];
                &&& pair.partner1 != pair.partner2
                &&& pair.duration == 0
                &&& is_present(candidates, candidates.len() as int, pair.partner1)
                &&& is_present(candidates, candidates.len() as int, pair.partner2)
                &&& took_first_close_adult(candidates, upto, pair)
                &&& matching_of(candidates, upto).covered.contains(pair.partner1)
                &&& matching_of(candidates, upto).covered.contains(pair.partner2)
            }),
        forall|e: Entity| #[trigger]
            matching_of(candidates, upto).covered.contains(e) ==> exists|k: int|
                0 <= k < matching_of(candidates, upto).pairs.len() && involves(
                    #[trigger] matching_of(candidates, upto).pairs[k],
                    e,
                ),
        forall|k1: int, k2: int|
            0 <= k1 < k2 < matching_of(candidates, upto).pairs.len() ==> !share_partner(
                #[trigger] matching_of(candidates, upto).pairs[k1],
                #[trigger] matching_of(candidates, upto).pairs[k2],
            ),
    decreases upto,
{
    if upto > 0 {
        lemma_matching_is_exclusive(candidates, upto - 1);
        let before = matching_of(candidates, upto - 1);
        let after = matching_of(candidates, upto);
        let me = candidates[upto - 1];
        if pairs_up(me, before.covered, candidates) {
            let other = me.close_adults.0@[0].1;
            let new_pair = Relationship { partner1: me.entity, partner2: other, duration: 0 };
            let last = before.pairs.len() as int;
            assert(after.pairs[last] == new_pair);
            assert(is_present(candidates, candidates.len() as int, me.entity));
            assert forall|k: int| 0 <= k < after.pairs.len() implies {
                let pair = #[trigger] after.pairs[k];
                &&& pair.partner1 != pair.partner2
                &&& pair.duration == 0
                &&& is_present(candidates, candidates.len() as int, pair.partner1)
                &&& is_present(candidates, candidates.len() as int, pair.partner2)
                &&& took_first_close_adult(candidates, upto, pair)
                &&& after.covered.contains(pair.partner1)
                &&& after.covered.contains(pair.partner2)
            } by {
                if k < last {
                    assert(after.pairs[k] == before.pairs[k]);
                    let pair = before.pairs[k];
                    assert(took_first_close_adult(candidates, upto - 1, pair));
                    let i = choose|i: int|
                        0 <= i < upto - 1 && i < candidates.len() && (#[trigger] candidates[i]).entity
                            == pair.partner1 && candidates[i].sambo is None
                            && candidates[i].close_adults.0@.len() > 0
                            && candidates[i].close_adults.0@[0].1 == pair.partner2;
                    assert(candidates[i].entity == pair.partner1);
                } else {
                    assert(candidates[upto - 1].entity == new_pair.partner1);
                }
            }
            assert forall|e: Entity| #[trigger] after.covered.contains(e) implies exists|k: int|
                0 <= k < after.pairs.len() && involves(#[trigger] after.pairs[k], e) by {
                if e == me.entity || e == other {
                    assert(involves(after.pairs[last], e));
                } else {
                    assert(before.covered.contains(e));
                    let k = choose|k: int|
                        0 <= k < before.pairs.len() && involves(#[trigger] before.pairs[k], e);
                    assert(after.pairs[k] == before.pairs[k]);
                    assert(involves(after.pairs[k], e));
                }
            }
            assert forall|k1: int, k2: int| 0 <= k1 < k2 < after.pairs.len() implies !share_partner(
                #[trigger] after.pairs[k1],
                #[trigger] after.pairs[k2],
            ) by {
                assert(after.pairs[k1] == before.pairs[k1]);
                if k2 < last {
                    assert(after.pairs[k2] == before.pairs[k2]);
                } else {
                    assert(before.covered.contains(before.pairs[k1].partner1));
                    assert(before.covered.contains(before.pairs[k1].partner2));
                }
            }
        } else {
            assert forall|k: int| 0 <= k < after.pairs.len() implies took_first_close_adult(
                candidates,
                upto,
                #[trigger] after.pairs[k],
            ) by {
                let pair = before.pairs[k];
                assert(took_first_close_adult(candidates, upto - 1, pair));
                let i = choose|i: int|
                    0 <= i < upto - 1 && i < candidates.len() && (#[trigger] candidates[i]).entity
                        == pair.partner1 && candidates[i].sambo is None
                        && candidates[i].close_adults.0@.len() > 0
                        && candidates[i].close_adults.0@[0].1 == pair.partner2;
                assert(candidates[i].entity == pair.partner1);
            }
        }
    }
}

/// Whether `adult` is one of the population, just as it stands there.
pub open spec fn is_member(population: Seq<AdultBoid>, adult: AdultBoid) -> bool {
    exists|p: int| 0 <= p < population.len() && #[trigger] population[p] == adult
}

/// Where the close adults of every candidate come from a proximity query over
/// a population, the partners of every new pair have each other strictly
/// within the query's radius, and each is among the close adults of the other.
pub proof fn lemma_pairs_are_mutually_close(
    population: Seq<AdultBoid>,
    radius_2: int,
    candidates: Seq<AdultBoid>,
    k: int,
)
    requires
        forall|p: int|
            0 <= p < population.len() ==> (#[trigger] population[p]).close_adults.0@
                == close_adults_of(population[p], population, radius_2),
        forall|i: int|
            0 <= i < candidates.len() ==> is_member(population, #[trigger] candidates[i]),
        0 <= k < matching_of(candidates, candidates.len() as int).pairs.len(),
    ensures
        exists|a: int, b: int|
            {
                let pair = matching_of(candidates, candidates.len() as int).pairs[k];
                &&& 0 <= a < population.len()
                &&& 0 <= b < population.len()
                &&& (#[trigger] population[a]).entity == pair.partner1
                &&& (#[trigger] population[b]).entity == pair.partner2
                &&& is_close(population[a], population[b], radius_2)
                &&& is_close(population[b], population[a], radius_2)
                &&& population[a].close_adults.0@.contains(
                    (population[b].position, population[b].entity),
                )
                &&& population[b].close_adults.0@.contains(
                    (population[a].position, population[a].entity),
                )
            },
{
    lemma_matching_is_exclusive(candidates, candidates.len() as int);
    let pair = matching_of(candidates, candidates.len() as int).pairs[k];
    assert(took_first_close_adult(candidates, candidates.len() as int, pair));
    let i = choose|i: int|
        0 <= i < candidates.len() && (#[trigger] candidates[i]).entity == pair.partner1
            && candidates[i].sambo is None && candidates[i].close_adults.0@.len() > 0
            && candidates[i].close_adults.0@[0].1 == pair.partner2;
    assert(is_member(population, candidates[i]));
    let a = choose|p: int| 0 <= p < population.len() && #[trigger] population[p] == candidates[i];
    lemma_close_adults_entries(population[a], population, radius_2, 0);
    let b = choose|j: int|
        0 <= j < population.len() && is_close(population[a], #[trigger] population[j], radius_2)
            && close_adults_of(population[a], population, radius_2)[0] == (
            population[j].position,
            population[j].entity,
        );
    crate::vec2::lemma_dist2_symmetric(population[a].position, population[b].position);
    assert(is_close(population[b], population[a], radius_2));
    lemma_close_adults_complete(population[a], population, radius_2, b);
    lemma_close_adults_complete(population[b], population, radius_2, a);
    assert(population[a].entity == pair.partner1);
    assert(population[b].entity == pair.partner2);
}

/// A relationship as the store holds it.
#[derive(Clone, Copy, Debug)]
pub struct PairState {
    pub entity: Entity,
    pub relationship: Relationship,
    pub has_sprite: bool,
}

/// What is to be done with the sign of a pair.
#[derive(Clone, Copy, PartialEq, Eq, Structural, Debug)]
pub enum SpriteChange {
    /// The pair shows no sign yet.
    Nothing,
    /// The pair has been together long enough: its sign appears.
    Spawn,
    /// The sign follows the pair.
    Move,
}

/// What becomes of a relationship in a tick.
#[derive(Clone, Copy, PartialEq, Eq, Structural, Debug)]
pub enum RelationshipUpdate {
    /// The relationship ends. Each partner that is still there loses its mark.
    Disband { free_partner1: bool, free_partner2: bool },
    /// The relationship goes on, and its sign belongs at `position`.
    Keep { position: Vec2, sprite: SpriteChange },
}

/// The tunables of relationship upkeep.
#[derive(Clone, Copy, Debug)]
pub struct RelationshipConfig {
    pub visible_relationship_threshold: i32,
    pub disband_relationship_distance_2: i64,
    pub heart_height_offset: i32,
}

impl Default for RelationshipConfig {
    fn default() -> (config: RelationshipConfig)
        ensures
            config.visible_relationship_threshold == VISIBLE_RELATIONSHIP_THRESHOLD,
            config.disband_relationship_distance_2 == DISBAND_RELATIONSHIP_DISTANCE_2,
            config.heart_height_offset == HEART_HEIGHT_OFFSET,
    {
        RelationshipConfig {
            visible_relationship_threshold: VISIBLE_RELATIONSHIP_THRESHOLD,
            disband_relationship_distance_2: DISBAND_RELATIONSHIP_DISTANCE_2,
            heart_height_offset: HEART_HEIGHT_OFFSET,
        }
    }
}

/// As many zeros as there are partners: every partner is as good a find as
/// any other.
pub open spec fn no_preference(partners: Seq<Target>) -> Seq<int> {
    Seq::new(partners.len(), |j: int| 0int)
}

/// Which partners have the handle `entity`.
pub open spec fn has_handle(partners: Seq<Target>, entity: Entity) -> Seq<bool> {
    Seq::new(partners.len(), |j: int| partners[j].entity == entity)
}

/// The first of the partnered adults with the handle `entity`, if the handle
/// still resolves.
pub open spec fn find_partner(partners: Seq<Target>, entity: Entity) -> Option<int> {
    first_min(no_preference(partners), has_handle(partners, entity))
}

/// `a` after `dt` more seconds, clamped into the stored range.
pub open spec fn later(a: i32, dt: u32) -> i32 {
    saturate(a + dt) as i32
}

/// Where the sign of a pair belongs: above the middle of the partners.
pub open spec fn sign_position(one: Vec2, other: Vec2, offset: i32) -> Vec2 {
    Vec2 {
        x: div_toward_zero(one.x + other.x, 2) as i32,
        y: saturate(div_toward_zero(one.y + other.y, 2) + offset) as i32,
    }
}

/// What becomes of `pair` in a tick of `dt`: it ends if the handle of a
/// partner no longer resolves or the partners are too far apart; else it goes
/// on, with its sign shown once the pair has lasted long enough.
pub open spec fn upkeep(
    pair: PairState,
    partners: Seq<Target>,
    dt: u32,
    config: RelationshipConfig,
) -> RelationshipUpdate {
    let first = find_partner(partners, pair.relationship.partner1);
    let second = find_partner(partners, pair.relationship.partner2);
    if first is None || second is None {
        RelationshipUpdate::Disband { free_partner1: first is Some, free_partner2: second is Some }
    } else {
        let one = partners[first.unwrap()].position;
        let other = partners[second.unwrap()].position;
        if one.dist2(other) > config.disband_relationship_distance_2 {
            RelationshipUpdate::Disband { free_partner1: true, free_partner2: true }
        } else {
            RelationshipUpdate::Keep {
                position: sign_position(one, other, config.heart_height_offset),
                sprite: if pair.has_sprite {
                    SpriteChange::Move
                } else if later(pair.relationship.duration, dt)
                    >= config.visible_relationship_threshold {
                    SpriteChange::Spawn
                } else {
                    SpriteChange::Nothing
                },
            }
        }
    }
}

/// A relationship whose partner no longer resolves ends in that very tick, and
/// the partner that is still there is told to drop its mark.
pub proof fn lemma_stale_partner_disbands(
    pair: PairState,
    partners: Seq<Target>,
    dt: u32,
    config: RelationshipConfig,
)
    requires
        find_partner(partners, pair.relationship.partner1) is None || find_partner(
            partners,
            pair.relationship.partner2,
        ) is None,
    ensures
        upkeep(pair, partners, dt, config) == (RelationshipUpdate::Disband {
            free_partner1: find_partner(partners, pair.relationship.partner1) is Some,
            free_partner2: find_partner(partners, pair.relationship.partner2) is Some,
        }),
{
}

/// A handle resolves exactly when some partnered adult has it.
pub proof fn lemma_find_partner_resolves(partners: Seq<Target>, entity: Entity)
    ensures
        find_partner(partners, entity) is Some <==> exists|j: int|
            0 <= j < partners.len() && (#[trigger] partners[j]).entity == entity,
        find_partner(partners, entity) matches Some(k) ==> 0 <= k < partners.len()
            && partners[k].entity == entity,
{
    let dist = no_preference(partners);
    let eligible = has_handle(partners, entity);
    if exists|j: int| 0 <= j < partners.len() && (#[trigger] partners[j]).entity == entity {
        let j = choose|j: int| 0 <= j < partners.len() && (#[trigger] partners[j]).entity == entity;
        let k = first_handle(partners, entity, j);
        lemma_first_min_is(dist, eligible, k);
    } else {
        assert forall|j: int| 0 <= j < dist.len() implies !eligible[j] by {
            assert(partners[j].entity != entity);
        }
        lemma_first_min_none(dist, eligible);
    }
    if let Some(k) = find_partner(partners, entity) {
        assert(is_first_min(dist, eligible, k));
        assert(partners[k].entity == entity);
    }
}

/// The first index at or before `j` whose partner has the handle `entity`.
proof fn first_handle(partners: Seq<Target>, entity: Entity, j: int) -> (k: int)
    requires
        0 <= j < partners.len(),
        partners[j].entity == entity,
    ensures
        is_first_min(no_preference(partners), has_handle(partners, entity), k),
    decreases j,
{
    if exists|i: int| 0 <= i < j && (#[trigger] partners[i]).entity == entity {
        let i = choose|i: int| 0 <= i < j && (#[trigger] partners[i]).entity == entity;
        first_handle(partners, entity, i)
    } else {
        assert forall|i: int| 0 <= i < j implies !has_handle(partners, entity)[i] by {
            assert(partners[i].entity != entity);
        }
        j
    }
}

/// Finds the first of the partnered adults with the handle `entity`.
fn lookup_partner(partners: &Vec<Target>, entity: Entity) -> (r: Option<usize>)
    ensures
        r matches Some(k) ==> k < partners@.len() && find_partner(partners@, entity) == Some(
            k as int,
        ),
        r is None ==> find_partner(partners@, entity) is None,
{
    let n = partners.len();
    let mut j: usize = 0;
    while j < n
        invariant
            j <= n,
            n == partners@.len(),
            forall|i: int| 0 <= i < j ==> (#[trigger] partners@[i]).entity != entity,
        decreases n - j,
    {
        if partners[j].entity == entity {
            proof {
                lemma_first_min_is(
                    no_preference(partners@),
                    has_handle(partners@, entity),
                    j as int,
                );
            }
            return Some(j);
        }
        j += 1;
    }
    proof {
        lemma_first_min_none(no_preference(partners@), has_handle(partners@, entity));
    }
    None
}

/// Ages every relationship by `dt` and decides what becomes of it: it ends
/// where a partner is gone or the partners are too far apart, and otherwise
/// gets the place of its sign. `partners` are the adults that carry a partner
/// mark, each with its position.
pub fn system_update_relationships(
    dt: u32,
    pairs: &mut Vec<PairState>,
    partners: &Vec<Target>,
    config: &RelationshipConfig,
) -> (updates: Vec<RelationshipUpdate>)
    ensures
        final(pairs)@.len() == old(pairs)@.len(),
        updates@.len() == old(pairs)@.len(),
        forall|i: int|
            0 <= i < old(pairs)@.len() ==> ({
                &&& (#[trigger] final(pairs)@[i]).entity == old(pairs)@[i].entity
                &&& final(pairs)@[i].has_sprite == old(pairs)@[i].has_sprite
                &&& final(pairs)@[i].relationship.partner1 == old(pairs)@[i].relationship.partner1
                &&& final(pairs)@[i].relationship.partner2 == old(pairs)@[i].relationship.partner2
                &&& final(pairs)@[i].relationship.duration == later(
                    old(pairs)@[i].relationship.duration,
                    dt,
                )
                &&& updates@[i] == upkeep(old(pairs)@[i], partners@, dt, *config)
            }),
{
    let n = pairs.len();
    let mut updates: Vec<RelationshipUpdate> = Vec::new();
    let mut i: usize = 0;
    while i < n
        invariant
            i <= n,
            n == pairs@.len(),
            n == old(pairs)@.len(),
            updates@.len() == i,
            forall|k: int| i <= k < n ==> #[trigger] pairs@[k] == old(pairs)@[k],
            forall|k: int|
                0 <= k < i ==> ({
                    &&& (#[trigger] pairs@[k]).entity == old(pairs)@[k].entity
                    &&& pairs@[k].has_sprite == old(pairs)@[k].has_sprite
                    &&& pairs@[k].relationship.partner1 == old(pairs)@[k].relationship.partner1
                    &&& pairs@[k].relationship.partner2 == old(pairs)@[k].relationship.partner2
                    &&& pairs@[k].relationship.duration == later(
                        old(pairs)@[k].relationship.duration,
                        dt,
                    )
                    &&& updates@[k] == upkeep(old(pairs)@[k], partners@, dt, *config)
                }),
        decreases n - i,
    {
        let pair = pairs[i];
        let duration = saturate_i32(pair.relationship.duration as i128 + dt as i128);
        pairs[i].relationship.duration = duration;
        let first = lookup_partner(partners, pair.relationship.partner1);
        let second = lookup_partner(partners, pair.relationship.partner2);
        let update = match (first, second) {
            (Some(a), Some(b)) => {
                let one = partners[a].position;
                let other = partners[b].position;
                if one.distance_squared(&other) > config.disband_relationship_distance_2 as i128 {
                    RelationshipUpdate::Disband { free_partner1: true, free_partner2: true }
                } else {
                    let x = quotient(one.x as i128 + other.x as i128, 2);
                    let y = quotient(one.y as i128 + other.y as i128, 2);
                    let position = Vec2 {
                        x: saturate_i32(x),
                        y: saturate_i32(y + config.heart_height_offset as i128),
                    };
                    let sprite = if pair.has_sprite {
                        SpriteChange::Move
                    } else if duration >= config.visible_relationship_threshold {
                        SpriteChange::Spawn
                    } else {
                        SpriteChange::Nothing
                    };
                    RelationshipUpdate::Keep { position, sprite }
                }
            },
            _ => RelationshipUpdate::Disband {
                free_partner1: first.is_some(),
                free_partner2: second.is_some(),
            },
        };
        updates.push(update);
        i += 1;
    }
    updates
}

/// A pair that breeds, and where.
#[derive(Clone, Copy, Debug)]
pub struct Nest {
    pub position: Vec2,
    pub progress: BreedingProgress,
}

/// Whether a pair with this progress lays an egg after `dt` more seconds.
pub open spec fn lays_egg(progress: BreedingProgress, dt: u32, breeding_duration: i32) -> bool {
    later(progress.0, dt) >= breeding_duration
}

/// The progress of a pair after `dt` more seconds: back at zero if it lays an
/// egg.
pub open spec fn progress_after(progress: BreedingProgress, dt: u32, breeding_duration: i32)
    -> BreedingProgress {
    if lays_egg(progress, dt, breeding_duration) {
        BreedingProgress(0)
    } else {
        BreedingProgress(later(progress.0, dt))
    }
}

/// Where `nest` lays an egg after `dt` more seconds, if it does.
pub open spec fn egg_of(nest: Nest, dt: u32, breeding_duration: i32) -> Option<Vec2> {
    if lays_egg(nest.progress, dt, breeding_duration) {
        Some(nest.position)
    } else {
        None
    }
}

/// Lets every pair breed for `dt`. A pair whose progress reaches the breeding
/// duration lays one egg where it is and starts over; the pair itself stays.
/// Returns, nest by nest, where an egg is to be laid.
pub fn system_breeding(dt: u32, nests: &mut Vec<Nest>, breeding_duration: i32) -> (eggs: Vec<
    Option<Vec2>,
>)
    ensures
        final(nests)@.len() == old(nests)@.len(),
        eggs@.len() == old(nests)@.len(),
        forall|i: int|
            0 <= i < old(nests)@.len() ==> ({
                &&& (#[trigger] final(nests)@[i]).position == old(nests)@[i].position
                &&& final(nests)@[i].progress == progress_after(
                    old(nests)@[i].progress,
                    dt,
                    breeding_duration,
                )
                &&& eggs@[i] == egg_of(old(nests)@[i], dt, breeding_duration)
            }),
{
    let n = nests.len();
    let mut eggs: Vec<Option<Vec2>> = Vec::new();
    let mut i: usize = 0;
    while i < n
        invariant
            i <= n,
            n == nests@.len(),
            n == old(nests)@.len(),
            eggs@.len() == i,
            forall|k: int| i <= k < n ==> #[trigger] nests@[k] == old(nests)@[k],
            forall|k: int|
                0 <= k < i ==> ({
                    &&& (#[trigger] nests@[k]).position == old(nests)@[k].position
                    &&& nests@[k].progress == progress_after(
                        old(nests)@[k].progress,
                        dt,
                        breeding_duration,
                    )
                    &&& eggs@[k] == egg_of(old(nests)@[k], dt, breeding_duration)
                }),
        decreases n - i,
    {
        let nest = nests[i];
        let progress = saturate_i32(nest.progress.0 as i128 + dt as i128);
        if progress >= breeding_duration {
            nests[i].progress = BreedingProgress(0);
            eggs.push(Some(nest.position));
        } else {
            nests[i].progress = BreedingProgress(progress);
            eggs.push(None);
        }
        i += 1;
    }
    eggs
}

/// The mark that the first `upto` new relationships give the adult `entity`:
/// that of the last of them it is a partner of.
pub open spec fn mark_of(
    entity: Entity,
    pairs: Seq<Relationship>,
    handles: Seq<Entity>,
    upto: int,
) -> Option<Sambo>
    decreases upto,
{
    if upto <= 0 {
        None
    } else if involves(pairs[upto - 1], entity) {
        Some(Sambo { relationship_entity: handles[upto - 1] })
    } else {
        mark_of(entity, pairs, handles, upto - 1)
    }
}

/// The mark of an adult after new relationships were made: the mark of its new
/// relationship if it is in one, else the mark it had.
pub open spec fn marked(
    adult: AdultBoid,
    pairs: Seq<Relationship>,
    handles: Seq<Entity>,
) -> Option<Sambo> {
    match mark_of(adult.entity, pairs, handles, pairs.len() as int) {
        Some(sambo) => Some(sambo),
        None => adult.sambo,
    }
}

/// An adult that is a partner in one of the new relationships carries a mark
/// afterwards; an adult that is in none keeps what it had.
pub proof fn lemma_partners_are_marked(
    adult: AdultBoid,
    pairs: Seq<Relationship>,
    handles: Seq<Entity>,
    upto: int,
)
    requires
        0 <= upto <= pairs.len(),
    ensures
        mark_of(adult.entity, pairs, handles, upto) is Some <==> exists|k: int|
            0 <= k < upto && involves(#[trigger] pairs[k], adult.entity),
    decreases upto,
{
    if upto > 0 {
        lemma_partners_are_marked(adult, pairs, handles, upto - 1);
        if involves(pairs[upto - 1], adult.entity) {
        } else if exists|k: int| 0 <= k < upto && involves(#[trigger] pairs[k], adult.entity) {
            let k = choose|k: int| 0 <= k < upto && involves(#[trigger] pairs[k], adult.entity);
            assert(k < upto - 1);
        }
    }
}

/// Gives both partners of every new relationship their mark: the handle under
/// which the store holds the relationship. `handles[k]` is the handle of
/// `pairs[k]`.
pub fn mark_partners(adults: &mut Vec<AdultBoid>, pairs: &Vec<Relationship>, handles: &Vec<Entity>)
    requires
        pairs@.len() == handles@.len(),
    ensures
        final(adults)@.len() == old(adults)@.len(),
        forall|i: int|
            0 <= i < old(adults)@.len() ==> ({
                &&& (#[trigger] final(adults)@[i]).entity == old(adults)@[i].entity
                &&& final(adults)@[i].position == old(adults)@[i].position
                &&& final(adults)@[i].velocity == old(adults)@[i].velocity
                &&& final(adults)@[i].close_adults == old(adults)@[i].close_adults
                &&& final(adults)@[i].sambo == marked(old(adults)@[i], pairs@, handles@)
            }),
{
    let n = adults.len();
    let m = pairs.len();
    let mut i: usize = 0;
    while i < n
        invariant
            i <= n,
            n == adults@.len(),
            n == old(adults)@.len(),
            m == pairs@.len(),
            m == handles@.len(),
            forall|k: int| i <= k < n ==> #[trigger] adults@[k] == old(adults)@[k],
            forall|k: int|
                0 <= k < i ==> ({
                    &&& (#[trigger] adults@[k]).entity == old(adults)@[k].entity
                    &&& adults@[k].position == old(adults)@[k].position
                    &&& adults@[k].velocity == old(adults)@[k].velocity
                    &&& adults@[k].close_adults == old(adults)@[k].close_adults
                    &&& adults@[k].sambo == marked(old(adults)@[k], pairs@, handles@)
                }),
        decreases n - i,
    {
        let entity = adults[i].entity;
        let mut mark: Option<Sambo> = None;
        let mut k: usize = 0;
        while k < m
            invariant
                k <= m,
                m == pairs@.len(),
                m == handles@.len(),
                mark == mark_of(entity, pairs@, handles@, k as int),
            decreases m - k,
        {
            if pairs[k].partner1 == entity || pairs[k].partner2 == entity {
                mark = Some(Sambo { relationship_entity: handles[k] });
            }
            k += 1;
        }
        if mark.is_some() {
            adults[i].sambo = mark;
        }
        i += 1;
    }
}

/// Whether one of the first `upto` relationships ends and has the adult
/// `entity` as a partner.
pub open spec fn is_released(
    entity: Entity,
    pairs: Seq<PairState>,
    updates: Seq<RelationshipUpdate>,
    upto: int,
) -> bool {
    exists|k: int|
        0 <= k < upto && k < pairs.len() && k < updates.len() && (
        #[trigger] updates[k]) is Disband && involves(pairs[k].relationship, entity)
}

/// Takes the mark off both partners of every relationship that ends: whoever
/// of them is still there is free again in the same tick.
pub fn release_partners(
    adults: &mut Vec<AdultBoid>,
    pairs: &Vec<PairState>,
    updates: &Vec<RelationshipUpdate>,
)
    requires
        pairs@.len() == updates@.len(),
    ensures
        final(adults)@.len() == old(adults)@.len(),
        forall|i: int|
            0 <= i < old(adults)@.len() ==> ({
                &&& (#[trigger] final(adults)@[i]).entity == old(adults)@[i].entity
                &&& final(adults)@[i].position == old(adults)@[i].position
                &&& final(adults)@[i].velocity == old(adults)@[i].velocity
                &&& final(adults)@[i].close_adults == old(adults)@[i].close_adults
                &&& final(adults)@[i].sambo == (if is_released(
                    old(adults)@[i].entity,
                    pairs@,
                    updates@,
                    pairs@.len() as int,
                ) {
                    None
                } else {
                    old(adults)@[i].sambo
                })
            }),
{
    let n = adults.len();
    let m = pairs.len();
    let mut i: usize = 0;
    while i < n
        invariant
            i <= n,
            n == adults@.len(),
            n == old(adults)@.len(),
            m == pairs@.len(),
            m == updates@.len(),
            forall|k: int| i <= k < n ==> #[trigger] adults@[k] == old(adults)@[k],
            forall|k: int|
                0 <= k < i ==> ({
                    &&& (#[trigger] adults@[k]).entity == old(adults)@[k].entity
                    &&& adults@[k].position == old(adults)@[k].position
                    &&& adults@[k].velocity == old(adults)@[k].velocity
                    &&& adults@[k].close_adults == old(adults)@[k].close_adults
                    &&& adults@[k].sambo == (if is_released(
                        old(adults)@[k].entity,
                        pairs@,
                        updates@,
                        m as int,
                    ) {
                        None
                    } else {
                        old(adults)@[k].sambo
                    })
                }),
        decreases n - i,
    {
        let entity = adults[i].entity;
        let mut released = false;
        let mut k: usize = 0;
        while k < m
            invariant
                k <= m,
                m == pairs@.len(),
                m == updates@.len(),
                released == is_released(entity, pairs@, updates@, k as int),
            decreases m - k,
        {
            let ends = match updates[k] {
                RelationshipUpdate::Disband { .. } => true,
                RelationshipUpdate::Keep { .. } => false,
            };
            let mine = pairs[k].relationship.partner1 == entity || pairs[k].relationship.partner2
                == entity;
            proof {
                if ends && mine {
                    assert(updates@[k as int] is Disband);
                } else if is_released(entity, pairs@, updates@, k + 1) {
                    let w = choose|w: int|
                        0 <= w < k + 1 && w < pairs@.len() && w < updates@.len() && (
                        #[trigger] updates@[w]) is Disband && involves(
                            pairs@[w].relationship,
                            entity,
                        );
                    assert(w < k);
                }
            }
            if ends && mine {
                released = true;
            }
            k += 1;
        }
        if released {
            adults[i].sambo = None;
        }
        i += 1;
    }
}

/// The relationships that go on, in order.
pub open spec fn surviving(pairs: Seq<PairState>, updates: Seq<RelationshipUpdate>) -> Seq<
    PairState,
>
    decreases pairs.len(),
{
    if pairs.len() == 0 || updates.len() == 0 {
        Seq::empty()
    } else if updates.last() is Keep {
        surviving(pairs.drop_last(), updates.drop_last()).push(pairs.last())
    } else {
        surviving(pairs.drop_last(), updates.drop_last())
    }
}

/// Every relationship that is left was told to go on; and both partners of a
/// relationship that was told to end are released.
pub proof fn lemma_survivors_were_kept(
    pairs: Seq<PairState>,
    updates: Seq<RelationshipUpdate>,
    s: int,
)
    requires
        pairs.len() == updates.len(),
        0 <= s < surviving(pairs, updates).len(),
    ensures
        exists|k: int|
            0 <= k < pairs.len() && (#[trigger] updates[k]) is Keep && surviving(pairs, updates)[s]
                == pairs[k],
        forall|k: int|
            0 <= k < pairs.len() && (#[trigger] updates[k]) is Disband ==> is_released(
                pairs[k].relationship.partner1,
                pairs,
                updates,
                pairs.len() as int,
            ) && is_released(pairs[k].relationship.partner2, pairs, updates, pairs.len() as int),
    decreases pairs.len(),
{
    let rest = surviving(pairs.drop_last(), updates.drop_last());
    let last = pairs.len() - 1;
    if s < rest.len() {
        lemma_survivors_were_kept(pairs.drop_last(), updates.drop_last(), s);
        let k = choose|k: int|
            0 <= k < pairs.drop_last().len() && (#[trigger] updates.drop_last()[k]) is Keep
                && rest[s] == pairs.drop_last()[k];
        assert(updates[k] == updates.drop_last()[k]);
        assert(pairs[k] == pairs.drop_last()[k]);
    } else {
        assert(updates[last] is Keep);
    }
}

/// Removes every relationship that ends; those that go on stay in order.
pub fn dissolve(pairs: &mut Vec<PairState>, updates: &Vec<RelationshipUpdate>)
    requires
        old(pairs)@.len() == updates@.len(),
    ensures
        final(pairs)@ == surviving(old(pairs)@, updates@),
{
    let n = pairs.len();
    let mut kept: Vec<PairState> = Vec::new();
    let mut i: usize = 0;
    while i < n
        invariant
            i <= n,
            n == pairs@.len(),
            n == updates@.len(),
            pairs@ == old(pairs)@,
            kept@ == surviving(pairs@.take(i as int), updates@.take(i as int)),
        decreases n - i,
    {
        proof {
            assert(pairs@.take(i + 1).drop_last() == pairs@.take(i as int));
            assert(updates@.take(i + 1).drop_last() == updates@.take(i as int));
        }
        match updates[i] {
            RelationshipUpdate::Keep { .. } => {
                kept.push(pairs[i]);
            },
            RelationshipUpdate::Disband { .. } => {},
        }
        i += 1;
    }
    proof {
        assert(pairs@.take(n as int) == pairs@);
        assert(updates@.take(n as int) == updates@);
    }
    *pairs = kept;
}

} // verus!

//! Agent handles and sets of them.

use vstd::prelude::*;

verus! {

/// A stable handle of an agent or a relationship: the bits of the store's
/// generation-checked identifier.
pub type Entity = u64;

/// The handle that stands for "no agent yet".
pub const PLACEHOLDER: Entity = 0x1_FFFF_FFFF;

/// A set of handles, kept in the store's own hash set.
#[verifier::external_body]
pub struct EntitySet {
    inner: bevy::utils::HashSet<u64>,
}

/// The handles that an [`EntitySet`] holds.
pub uninterp spec fn entity_set_contents(set: EntitySet) -> Set<Entity>;

impl View for EntitySet {
    type V = Set<Entity>;

    open spec fn view(&self) -> Set<Entity> {
        entity_set_contents(*self)
    }
}

/// `bevy::utils::HashSet::default`: the new set holds nothing.
#[verifier::external_body]
pub(crate) fn entity_set_new() -> (set: EntitySet)
    ensures
        entity_set_contents(set) == Set::<Entity>::empty(),
{
    EntitySet { inner: bevy::utils::HashSet::default() }
}

/// `hashbrown::HashSet::insert`: afterwards the set holds what it held and
/// `entity`; the result tells whether `entity` was new to it.
#[verifier::external_body]
pub(crate) fn entity_set_insert(set: &mut EntitySet, entity: Entity) -> (fresh: bool)
    ensures
        entity_set_contents(*final(set)) == entity_set_contents(*old(set)).insert(entity),
        fresh == !entity_set_contents(*old(set)).contains(entity),
{
    set.inner.insert(entity)
}

/// `hashbrown::HashSet::contains`: whether the set holds `entity`.
#[verifier::external_body]
pub(crate) fn entity_set_contains(set: &EntitySet, entity: Entity) -> (found: bool)
    ensures
        found == entity_set_contents(*set).contains(entity),
{
    set.inner.contains(&entity)
}

/// A map from handles to places in a population, kept in the store's own hash
/// map.
#[verifier::external_body]
pub struct EntityIndex {
    inner: bevy::utils::HashMap<u64, usize>,
}

/// The places that an [`EntityIndex`] holds, handle by handle.
pub uninterp spec fn entity_index_contents(index: EntityIndex) -> Map<Entity, usize>;

impl View for EntityIndex {
    type V = Map<Entity, usize>;

    open spec fn view(&self) -> Map<Entity, usize> {
        entity_index_contents(*self)
    }
}

/// `bevy::utils::HashMap::default`: the new map holds nothing.
#[verifier::external_body]
pub(crate) fn entity_index_new() -> (made: EntityIndex)
    ensures
        entity_index_contents(made) == (Map::<Entity, usize>::empty()),
{
    EntityIndex { inner: bevy::utils::HashMap::default() }
}

/// `hashbrown::HashMap::insert`: afterwards the map holds what it held, but
/// `place` under `entity`.
#[verifier::external_body]
pub(crate) fn entity_index_insert(index: &mut EntityIndex, entity: Entity, place: usize)
    ensures
        entity_index_contents(*final(index)) == entity_index_contents(*old(index)).insert(
            entity,
            place,
        ),
{
    index.inner.insert(entity, place);
}

/// `hashbrown::HashMap::get`: the place held under `entity`, if there is one.
#[verifier::external_body]
pub(crate) fn entity_index_get(index: &EntityIndex, entity: Entity) -> (place: Option<usize>)
    ensures
        place == (if entity_index_contents(*index).dom().contains(entity) {
            Some(entity_index_contents(*index)[entity])
        } else {
            None::<usize>
        }),
{
    index.inner.get(&entity).copied()
}

/// Whether no handle occurs twice.
pub open spec fn distinct(handles: Seq<Entity>) -> bool {
    forall|i: int, j: int| 0 <= i < j < handles.len() ==> handles[i] != handles[j]
}

/// Tells whether no handle occurs twice.
pub fn are_distinct(handles: &Vec<Entity>) -> (all_differ: bool)
    ensures
        all_differ == distinct(handles@),
{
    let n = handles.len();
    let mut seen = entity_set_new();
    let mut i: usize = 0;
    while i < n
        invariant
            i <= n,
            n == handles@.len(),
            forall|e: Entity|
                seen@.contains(e) <==> exists|j: int| 0 <= j < i && #[trigger] handles@[j] == e,
            forall|a: int, b: int| 0 <= a < b < i ==> handles@[a] != handles@[b],
        decreases n - i,
    {
        let ghost before = seen@;
        let fresh = entity_set_insert(&mut seen, handles[i]);
        if !fresh {
            proof {
                assert(before.contains(handles@[i as int]));
                let j = choose|j: int| 0 <= j < i && #[trigger] handles@[j] == handles@[i as int];
                assert(handles@[j] == handles@[i as int]);
            }
            return false;
        }
        proof {
            assert forall|e: Entity| seen@.contains(e) <==> exists|j: int|
                0 <= j < i + 1 && #[trigger] handles@[j] == e by {
                if seen@.contains(e) {
                    if e == handles@[i as int] {
                        assert(handles@[i as int] == e);
                    } else {
                        assert(before.contains(e));
                        let j = choose|j: int| 0 <= j < i && #[trigger] handles@[j] == e;
                        assert(handles@[j] == e);
                    }
                }
                if exists|j: int| 0 <= j < i + 1 && #[trigger] handles@[j] == e {
                    let j = choose|j: int| 0 <= j < i + 1 && #[trigger] handles@[j] == e;
                    if j < i {
                        assert(before.contains(e));
                    }
                }
            }
            assert forall|a: int, b: int| 0 <= a < b < i + 1 implies handles@[a] != handles@[b] by {
                if b == i && handles@[a] == handles@[b] {
                    assert(before.contains(handles@[a]));
                }
            }
        }
        i += 1;
    }
    true
}

/// Whether `index` leads from the handle of every agent that is in to the
/// place of that agent, and holds no handle of an agent that is out.
pub open spec fn leads_home(index: Map<Entity, usize>, handles: Seq<Entity>, is_in: Seq<bool>)
    -> bool {
    forall|i: int|
        0 <= i < handles.len() ==> if is_in[i] {
            index.dom().contains(#[trigger] handles[i]) && index[handles[i]] == i
        } else {
            !index.dom().contains(handles[i])
        }
}

/// Builds the map from the handle of every agent that is in to its place in
/// the population.
pub(crate) fn index_handles(handles: &Vec<Entity>, is_in: &Vec<bool>) -> (index: EntityIndex)
    requires
        handles@.len() == is_in@.len(),
        distinct(handles@),
    ensures
        leads_home(index@, handles@, is_in@),
{
    let n = handles.len();
    let mut index = entity_index_new();
    let mut i: usize = 0;
    while i < n
        invariant
            i <= n,
            n == handles@.len(),
            n == is_in@.len(),
            distinct(handles@),
            forall|e: Entity|
                index@.dom().contains(e) <==> exists|j: int|
                    0 <= j < i && is_in@[j] && #[trigger] handles@[j] == e,
            forall|j: int|
                0 <= j < i && is_in@[j] ==> index@.dom().contains(#[trigger] handles@[j])
                    && index@[handles@[j]] == j,
        decreases n - i,
    {
        let ghost before = index@;
        if is_in[i] {
            entity_index_insert(&mut index, handles[i], i);
        }
        proof {
            assert forall|e: Entity| index@.dom().contains(e) <==> exists|j: int|
                0 <= j < i + 1 && is_in@[j] && #[trigger] handles@[j] == e by {
                if index@.dom().contains(e) {
                    if is_in@[i as int] && e == handles@[i as int] {
                        assert(handles@[i as int] == e);
                    } else {
                        assert(before.dom().contains(e));
                        let j = choose|j: int|
                            0 <= j < i && is_in@[j] && #[trigger] handles@[j] == e;
                        assert(handles@[j] == e);
                    }
                }
                if exists|j: int| 0 <= j < i + 1 && is_in@[j] && #[trigger] handles@[j] == e {
                    let j = choose|j: int|
                        0 <= j < i + 1 && is_in@[j] && #[trigger] handles@[j] == e;
                    if j < i {
                        assert(before.dom().contains(e));
                    }
                }
            }
            assert forall|j: int| 0 <= j < i + 1 && is_in@[j] implies index@.dom().contains(
                #[trigger] handles@[j],
            ) && index@[handles@[j]] == j by {
                if j < i {
                    assert(before.dom().contains(handles@[j]));
                    assert(handles@[j] != handles@[i as int]);
                }
            }
        }
        i += 1;
    }
    proof {
        assert forall|i: int| 0 <= i < handles@.len() implies if is_in@[i] {
            index@.dom().contains(#[trigger] handles@[i]) && index@[handles@[i]] == i
        } else {
            !index@.dom().contains(handles@[i])
        } by {
            if !is_in@[i] && index@.dom().contains(handles@[i]) {
                let j = choose|j: int|
                    0 <= j < n && is_in@[j] && #[trigger] handles@[j] == handles@[i];
                assert(handles@[j] == handles@[i]);
            }
        }
    }
    index
}

} // verus!

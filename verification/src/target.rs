//! Choosing the closest of several candidates, first-seen winning ties.

use vstd::prelude::*;
use crate::entity::Entity;
use crate::vec2::Vec2;

verus! {

/// Something an agent can steer toward: food, a parent, a prey.
#[derive(Clone, Copy, Debug)]
pub struct Target {
    pub entity: Entity,
    pub position: Vec2,
}

/// Whether candidate `k` is eligible, no eligible candidate is closer, and no
/// earlier eligible candidate is as close.
pub open spec fn is_first_min(dist: Seq<int>, eligible: Seq<bool>, k: int) -> bool {
    &&& 0 <= k < dist.len()
    &&& eligible[k]
    &&& forall|j: int| 0 <= j < dist.len() && eligible[j] ==> dist[k] <= dist[j]
    &&& forall|j: int| 0 <= j < k && eligible[j] ==> dist[k] < dist[j]
}

/// The first of the closest eligible candidates, if any is eligible.
pub open spec fn first_min(dist: Seq<int>, eligible: Seq<bool>) -> Option<int> {
    if exists|k: int| is_first_min(dist, eligible, k) {
        Some(choose|k: int| is_first_min(dist, eligible, k))
    } else {
        None
    }
}

/// At most one candidate is the first of the closest.
pub proof fn lemma_first_min_is(dist: Seq<int>, eligible: Seq<bool>, k: int)
    requires
        is_first_min(dist, eligible, k),
    ensures
        first_min(dist, eligible) == Some(k),
{
    let c = choose|c: int| is_first_min(dist, eligible, c);
    assert(is_first_min(dist, eligible, c));
    if c < k {
        assert(dist[k] < dist[c]);
    } else if k < c {
        assert(dist[c] < dist[k]);
    }
}

/// With no eligible candidate there is no choice.
pub proof fn lemma_first_min_none(dist: Seq<int>, eligible: Seq<bool>)
    requires
        forall|j: int| 0 <= j < dist.len() ==> !eligible[j],
    ensures
        first_min(dist, eligible) is None,
{
}

/// Picks the first of the closest eligible candidates.
pub(crate) fn pick_first_min(dist: &Vec<i128>, eligible: &Vec<bool>, Ghost(exact): Ghost<Seq<int>>) -> (r:
    Option<usize>)
    requires
        dist@.len() == eligible@.len(),
        exact.len() == dist@.len(),
        forall|j: int| 0 <= j < dist@.len() ==> dist@[j] as int == exact[j],
    ensures
        r matches Some(k) ==> first_min(exact, eligible@) == Some(k as int) && k < dist@.len(),
        r is None ==> first_min(exact, eligible@) is None,
        r is None ==> forall|j: int| 0 <= j < dist@.len() ==> !eligible@[j],
{
    let n = dist.len();
    let mut best: Option<usize> = None;
    let mut j: usize = 0;
    while j < n
        invariant
            j <= n,
            n == dist@.len(),
            n == eligible@.len(),
            exact.len() == n,
            forall|i: int| 0 <= i < n ==> dist@[i] as int == exact[i],
            best is None ==> forall|i: int| 0 <= i < j ==> !eligible@[i],
            best matches Some(k) ==> ({
                &&& k < j
                &&& eligible@[k as int]
                &&& forall|i: int| 0 <= i < j && eligible@[i] ==> exact[k as int] <= exact[i]
                &&& forall|i: int| 0 <= i < k && eligible@[i] ==> exact[k as int] < exact[i]
            }),
        decreases n - j,
    {
        if eligible[j] {
            match best {
                None => {
                    best = Some(j);
                },
                Some(k) => {
                    if dist[j] < dist[k] {
                        best = Some(j);
                    }
                },
            }
        }
        j += 1;
    }
    proof {
        match best {
            Some(k) => {
                lemma_first_min_is(exact, eligible@, k as int);
            },
            None => {
                lemma_first_min_none(exact, eligible@);
            },
        }
    }
    best
}

/// The squared distances from `origin` to each target.
pub open spec fn distances(origin: Vec2, targets: Seq<Target>) -> Seq<int> {
    Seq::new(targets.len(), |j: int| origin.dist2(targets[j].position))
}

/// Which targets lie strictly within the squared radius of `origin`.
pub open spec fn visible(origin: Vec2, targets: Seq<Target>, radius_2: int) -> Seq<bool> {
    Seq::new(targets.len(), |j: int| origin.dist2(targets[j].position) < radius_2)
}

/// The closest target strictly within the squared radius of `origin`; of
/// several equally close, the first.
pub open spec fn closest_target(origin: Vec2, targets: Seq<Target>, radius_2: int) -> Option<int> {
    first_min(distances(origin, targets), visible(origin, targets, radius_2))
}

/// Finds the closest target strictly within the squared radius of `origin`.
pub fn find_closest_target(origin: Vec2, targets: &Vec<Target>, radius_2: i64) -> (r: Option<
    usize,
>)
    ensures
        r matches Some(k) ==> closest_target(origin, targets@, radius_2 as int) == Some(k as int)
            && k < targets@.len(),
        r is None ==> closest_target(origin, targets@, radius_2 as int) is None,
{
    let n = targets.len();
    let mut dist: Vec<i128> = Vec::new();
    let mut eligible: Vec<bool> = Vec::new();
    let mut j: usize = 0;
    while j < n
        invariant
            j <= n,
            n == targets@.len(),
            dist@.len() == j,
            eligible@.len() == j,
            forall|i: int|
                0 <= i < j ==> dist@[i] as int == origin.dist2(#[trigger] targets@[i].position),
            forall|i: int|
                0 <= i < j ==> eligible@[i] == (origin.dist2(#[trigger] targets@[i].position)
                    < radius_2),
        decreases n - j,
    {
        let d = origin.distance_squared(&targets[j].position);
        dist.push(d);
        eligible.push(d < radius_2 as i128);
        j += 1;
    }
    let ghost exact = distances(origin, targets@);
    assert(eligible@ =~= visible(origin, targets@, radius_2 as int));
    let r = pick_first_min(&dist, &eligible, Ghost(exact));
    proof {
        if let Some(k) = r {
            assert(is_first_min(exact, eligible@, k as int));
        }
    }
    r
}

} // verus!

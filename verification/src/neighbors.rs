//! Who is near a boid: every other boid within the neighbor radius, and
//! the closest one within the protected radius.

use vstd::prelude::*;
use crate::config::Config;
use crate::flock::{all_valid, BoidModel, Flock};
use crate::fixed::lemma_product_bound;

verus! {

/// The square of the distance between boid `i` and boid `j`.
pub open spec fn distance_sq(s: Seq<BoidModel>, i: int, j: int) -> int {
    s[i].position.minus(s[j].position).norm_sq()
}

/// Boid `j` is another boid than `i`, and at most `radius` away from it.
pub open spec fn in_range(s: Seq<BoidModel>, i: int, j: int, radius: int) -> bool {
    j != i && distance_sq(s, i, j) <= radius * radius
}

/// The boids before index `n` that are in range of boid `i`, in the order
/// of the flock.
pub open spec fn neighbors_before(s: Seq<BoidModel>, i: int, radius: int, n: int) -> Seq<int>
    decreases n,
{
    if n <= 0 {
        Seq::empty()
    } else {
        let rest = neighbors_before(s, i, radius, n - 1);
        if in_range(s, i, n - 1, radius) {
            rest.push(n - 1)
        } else {
            rest
        }
    }
}

/// All boids in range of boid `i`, in the order of the flock.
pub open spec fn neighbors(s: Seq<BoidModel>, i: int, radius: int) -> Seq<int> {
    neighbors_before(s, i, radius, s.len() as int)
}

/// The closest boid before index `n` that is in range of boid `i`. Of
/// several at the same distance it is the first.
pub open spec fn nearest_before(s: Seq<BoidModel>, i: int, radius: int, n: int) -> Option<int>
    decreases n,
{
    if n <= 0 {
        None
    } else {
        let best = nearest_before(s, i, radius, n - 1);
        if in_range(s, i, n - 1, radius) && (best matches Some(b) ==> distance_sq(s, i, n - 1)
            < distance_sq(s, i, b)) {
            Some(n - 1)
        } else {
            best
        }
    }
}

/// The closest boid in range of boid `i`; the first of several at the same
/// distance.
pub open spec fn nearest(s: Seq<BoidModel>, i: int, radius: int) -> Option<int> {
    nearest_before(s, i, radius, s.len() as int)
}

/// The neighbors before `n` are exactly the boids before `n` that are in
/// range, each once and in rising order.
pub proof fn lemma_neighbors_before(s: Seq<BoidModel>, i: int, radius: int, n: int)
    requires
        0 <= n <= s.len(),
    ensures
        neighbors_before(s, i, radius, n).len() <= n,
        forall|k: int|
            0 <= k < neighbors_before(s, i, radius, n).len() ==> {
                let j = #[trigger] neighbors_before(s, i, radius, n)[k];
                0 <= j < n && in_range(s, i, j, radius)
            },
        forall|k: int, l: int|
            0 <= k < l < neighbors_before(s, i, radius, n).len() ==> neighbors_before(
                s,
                i,
                radius,
                n,
            )[k] < neighbors_before(s, i, radius, n)[l],
        forall|j: int|
            0 <= j < n && in_range(s, i, j, radius) ==> neighbors_before(s, i, radius, n).contains(
                j,
            ),
    decreases n,
{
    if n > 0 {
        lemma_neighbors_before(s, i, radius, n - 1);
        let rest = neighbors_before(s, i, radius, n - 1);
        let all = neighbors_before(s, i, radius, n);
        if in_range(s, i, n - 1, radius) {
            assert(all[rest.len() as int] == n - 1);
            assert forall|j: int| 0 <= j < n && in_range(s, i, j, radius) implies all.contains(
                j,
            ) by {
                if j < n - 1 {
                    let k = choose|k: int| 0 <= k < rest.len() && rest[k] == j;
                    assert(all[k] == j);
                }
            }
        }
    }
}

/// The nearest boid before `n` is in range, no boid before `n` that is in
/// range is closer, and none before it is as close. There is none exactly
/// when no boid before `n` is in range.
pub proof fn lemma_nearest_before(s: Seq<BoidModel>, i: int, radius: int, n: int)
    requires
        0 <= n <= s.len(),
    ensures
        match nearest_before(s, i, radius, n) {
            Some(b) => {
                &&& 0 <= b < n
                &&& in_range(s, i, b, radius)
                &&& forall|j: int|
                    0 <= j < n && in_range(s, i, j, radius) ==> distance_sq(s, i, b)
                        <= #[trigger] distance_sq(s, i, j)
                &&& forall|j: int|
                    0 <= j < b && in_range(s, i, j, radius) ==> distance_sq(s, i, b)
                        < #[trigger] distance_sq(s, i, j)
            },
            None => forall|j: int| 0 <= j < n ==> !#[trigger] in_range(s, i, j, radius),
        },
    decreases n,
{
    if n > 0 {
        lemma_nearest_before(s, i, radius, n - 1);
    }
}

/// Where the inner radius does not exceed the outer one, the nearest boid
/// within the inner radius is one of the neighbors within the outer one.
pub proof fn lemma_nearest_is_a_neighbor(s: Seq<BoidModel>, i: int, inner: int, outer: int)
    requires
        0 <= inner <= outer,
    ensures
        nearest(s, i, inner) matches Some(j) ==> neighbors(s, i, outer).contains(j),
{
    lemma_nearest_before(s, i, inner, s.len() as int);
    lemma_neighbors_before(s, i, outer, s.len() as int);
    assert(inner * inner <= outer * outer) by (nonlinear_arith)
        requires
            0 <= inner <= outer,
    ;
    if let Some(j) = nearest(s, i, inner) {
        assert(in_range(s, i, j, outer));
    }
}

/// The indices that `list` holds, as mathematical integers.
pub open spec fn as_indices(list: Seq<usize>) -> Seq<int> {
    Seq::new(list.len(), |k: int| list[k] as int)
}

/// What `find_neighbors` found around one boid.
pub struct Neighborhood {
    /// The boids within the neighbor radius, by index, in rising order.
    pub neighbors: Vec<usize>,
    /// The closest boid within the protected radius, by index.
    pub nearest: Option<usize>,
}

impl Neighborhood {
    /// The neighbors as mathematical integers.
    pub open spec fn indices(&self) -> Seq<int> {
        as_indices(self.neighbors@)
    }

    /// The nearest boid as a mathematical integer.
    pub open spec fn nearest_index(&self) -> Option<int> {
        match self.nearest {
            Some(j) => Some(j as int),
            None => None,
        }
    }
}

/// Scans the flock once for the boids around the boid at `index`.
pub fn find_neighbors(flock: &Flock, index: usize, config: &Config) -> (r: Neighborhood)
    requires
        flock.wf(),
        config.valid(),
        index < flock@.len(),
    ensures
        r.indices() == neighbors(flock@, index as int, config.neighbor_radius as int),
        r.nearest_index() == nearest(flock@, index as int, config.protected_radius as int),
{
    let ghost s = flock@;
    let ghost i = index as int;
    let ghost outer = config.neighbor_radius as int;
    let ghost inner = config.protected_radius as int;
    proof {
        lemma_product_bound(outer, outer, i64::MAX as int, i64::MAX as int);
        lemma_product_bound(inner, inner, i64::MAX as int, i64::MAX as int);
    }
    let outer_sq: u128 = (config.neighbor_radius as i128 * config.neighbor_radius as i128) as u128;
    let inner_sq: u128 = (config.protected_radius as i128 * config.protected_radius as i128) as u128;
    let own = flock.get(index).position;
    let mut found = Neighborhood { neighbors: Vec::new(), nearest: None };
    let mut nearest_sq: u128 = 0;
    let count = flock.len();
    let mut j: usize = 0;
    while j < count
        invariant
            j <= count == s.len(),
            s == flock@,
            all_valid(s),
            i == index < count,
            own@ == s[i].position,
            outer_sq == outer * outer,
            inner_sq == inner * inner,
            found.indices() == neighbors_before(s, i, outer, j as int),
            found.nearest_index() == nearest_before(s, i, inner, j as int),
            found.nearest matches Some(b) ==> b < j && nearest_sq == distance_sq(s, i, b as int),
        decreases count - j,
    {
        if j != index {
            let other = flock.get(j).position;
            assert(s[j as int].valid());
            assert(s[i].valid());
            let d: u128 = own.distance_squared(other);
            if d <= outer_sq {
                let ghost before = found.indices();
                found.neighbors.push(j);
                assert(found.indices() =~= before.push(j as int));
            }
            if d <= inner_sq {
                let closer = match found.nearest {
                    Some(_) => d < nearest_sq,
                    None => true,
                };
                if closer {
                    found.nearest = Some(j);
                    nearest_sq = d;
                }
            }
        }
        j += 1;
    }
    found
}

} // verus!

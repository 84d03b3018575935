//! The four rules that steer a boid, and their sum.

use vstd::prelude::*;
use crate::config::Config;
use crate::fixed::{
    lemma_div_toward_zero_magnitude, lemma_product_bound, lemma_quotient_within, quotient, LIMIT,
    ONE, ONE_SQUARED,
};
use crate::flock::{all_valid, BoidModel, Flock};
use crate::neighbors::{
    as_indices, find_neighbors, lemma_nearest_before, lemma_neighbors_before, nearest, neighbors,
    Neighborhood,
};
use crate::vector::{lemma_normalized_is_unit, lemma_unit_fits, Vec2, Vector};

verus! {

/// The direction of `toward` with the length `weight`; nothing where
/// `toward` has no direction.
pub open spec fn weighted_direction(toward: Vector, weight: int) -> Vector {
    match toward.normalized() {
        Some(unit) => unit.scaled(weight),
        None => Vector::zero(),
    }
}

/// With a weight that is not negative, the weighted direction does not
/// point against `toward` on either axis, and is no longer than the weight
/// on either axis.
pub proof fn lemma_weighted_direction_points_along(toward: Vector, weight: int)
    requires
        0 <= weight,
    ensures
        toward.x >= 0 ==> 0 <= weighted_direction(toward, weight).x <= weight,
        toward.x <= 0 ==> -weight <= weighted_direction(toward, weight).x <= 0,
        toward.y >= 0 ==> 0 <= weighted_direction(toward, weight).y <= weight,
        toward.y <= 0 ==> -weight <= weighted_direction(toward, weight).y <= 0,
{
    if !toward.is_degenerate() {
        lemma_normalized_is_unit(toward);
        let unit = toward.normalized().unwrap();
        let length = toward.fine_length();
        lemma_div_toward_zero_magnitude(toward.x * (ONE_SQUARED as int), length);
        lemma_div_toward_zero_magnitude(toward.y * (ONE_SQUARED as int), length);
        assert(toward.x >= 0 ==> toward.x * (ONE_SQUARED as int) >= 0) by (nonlinear_arith);
        assert(toward.x <= 0 ==> toward.x * (ONE_SQUARED as int) <= 0) by (nonlinear_arith);
        assert(toward.y >= 0 ==> toward.y * (ONE_SQUARED as int) >= 0) by (nonlinear_arith);
        assert(toward.y <= 0 ==> toward.y * (ONE_SQUARED as int) <= 0) by (nonlinear_arith);
        lemma_product_bound(unit.x, weight, ONE as int, weight);
        lemma_product_bound(unit.y, weight, ONE as int, weight);
        lemma_quotient_within(unit.x * weight, ONE as int, weight);
        lemma_quotient_within(unit.y * weight, ONE as int, weight);
        lemma_div_toward_zero_magnitude(unit.x * weight, ONE as int);
        lemma_div_toward_zero_magnitude(unit.y * weight, ONE as int);
        assert(unit.x >= 0 ==> unit.x * weight >= 0) by (nonlinear_arith)
            requires
                0 <= weight,
        ;
        assert(unit.x <= 0 ==> unit.x * weight <= 0) by (nonlinear_arith)
            requires
                0 <= weight,
        ;
        assert(unit.y >= 0 ==> unit.y * weight >= 0) by (nonlinear_arith)
            requires
                0 <= weight,
        ;
        assert(unit.y <= 0 ==> unit.y * weight <= 0) by (nonlinear_arith)
            requires
                0 <= weight,
        ;
    }
}

/// Separation steers a boid away from its nearest: on neither axis does
/// the push point toward the boid that caused it.
pub proof fn lemma_separation_points_away(s: Seq<BoidModel>, i: int, c: Config)
    requires
        0 <= c.separation_weight,
    ensures
        match nearest(s, i, c.protected_radius as int) {
            Some(j) => {
                let away = s[i].position.minus(s[j].position);
                let push = separation_push(s, i, c);
                &&& away.x >= 0 ==> push.x >= 0
                &&& away.x <= 0 ==> push.x <= 0
                &&& away.y >= 0 ==> push.y >= 0
                &&& away.y <= 0 ==> push.y <= 0
            },
            None => separation_push(s, i, c) == Vector::zero(),
        },
{
    match nearest(s, i, c.protected_radius as int) {
        Some(j) => {
            lemma_weighted_direction_points_along(
                s[i].position.minus(s[j].position),
                c.separation_weight as int,
            );
        },
        None => {},
    }
}

/// The sum of the positions of the boids that `indices` lists.
pub open spec fn position_sum(s: Seq<BoidModel>, indices: Seq<int>) -> Vector
    decreases indices.len(),
{
    if indices.len() == 0 {
        Vector::zero()
    } else {
        position_sum(s, indices.drop_last()).plus(s[indices.last()].position)
    }
}

/// The sum of the headings of the boids that `indices` lists.
pub open spec fn heading_sum(s: Seq<BoidModel>, indices: Seq<int>) -> Vector
    decreases indices.len(),
{
    if indices.len() == 0 {
        Vector::zero()
    } else {
        heading_sum(s, indices.drop_last()).plus(s[indices.last()].heading)
    }
}

/// The mean position of boid `i` and the boids that `indices` lists.
pub open spec fn centroid(s: Seq<BoidModel>, i: int, indices: Seq<int>) -> Vector {
    s[i].position.plus(position_sum(s, indices)).divided(indices.len() as int + 1)
}

/// The mean heading of boid `i` and the boids that `indices` lists.
pub open spec fn mean_heading(s: Seq<BoidModel>, i: int, indices: Seq<int>) -> Vector {
    s[i].heading.plus(heading_sum(s, indices)).divided(indices.len() as int + 1)
}

/// Cohesion: toward the centroid of the boid and its neighbors. Nothing
/// for a boid without neighbors.
pub open spec fn cohesion_pull(s: Seq<BoidModel>, i: int, c: Config) -> Vector {
    let near = neighbors(s, i, c.neighbor_radius as int);
    if near.len() == 0 {
        Vector::zero()
    } else {
        weighted_direction(centroid(s, i, near).minus(s[i].position), c.cohesion_weight as int)
    }
}

/// Separation: away from the nearest boid within the protected radius.
/// Nothing where there is none.
pub open spec fn separation_push(s: Seq<BoidModel>, i: int, c: Config) -> Vector {
    match nearest(s, i, c.protected_radius as int) {
        Some(j) => weighted_direction(
            s[i].position.minus(s[j].position),
            c.separation_weight as int,
        ),
        None => Vector::zero(),
    }
}

/// Alignment: along the mean heading of the boid and its neighbors.
/// Nothing for a boid without neighbors.
pub open spec fn alignment_pull(s: Seq<BoidModel>, i: int, c: Config) -> Vector {
    let near = neighbors(s, i, c.neighbor_radius as int);
    if near.len() == 0 {
        Vector::zero()
    } else {
        weighted_direction(mean_heading(s, i, near), c.alignment_weight as int)
    }
}

/// Goal seeking: toward the goal, whoever is near.
pub open spec fn goal_pull(s: Seq<BoidModel>, i: int, c: Config) -> Vector {
    weighted_direction(c.goal@.minus(s[i].position), c.goal_weight as int)
}

/// The steering delta of boid `i`: the sum of the four rules.
pub open spec fn steering_delta(s: Seq<BoidModel>, i: int, c: Config) -> Vector {
    cohesion_pull(s, i, c).plus(separation_push(s, i, c)).plus(alignment_pull(s, i, c)).plus(
        goal_pull(s, i, c),
    )
}

/// Every index that `list` holds is one of a flock of `n` boids.
pub open spec fn indices_below(list: Seq<usize>, n: nat) -> bool {
    forall|k: int| 0 <= k < list.len() ==> (#[trigger] list[k]) < n
}

/// The direction of `toward`, scaled to the length `weight`.
pub fn weigh_direction(toward: Vec2, weight: i64) -> (v: Vec2)
    requires
        toward@.fits(2 * LIMIT),
        -LIMIT <= weight <= LIMIT,
    ensures
        v@ == weighted_direction(toward@, weight as int),
        v@.fits(LIMIT as int),
{
    match toward.normalize() {
        Some(unit) => {
            proof {
                lemma_product_bound(unit.x as int, weight as int, ONE as int, LIMIT as int);
                lemma_product_bound(unit.y as int, weight as int, ONE as int, LIMIT as int);
                lemma_quotient_within(unit.x * weight, ONE as int, LIMIT as int);
                lemma_quotient_within(unit.y * weight, ONE as int, LIMIT as int);
            }
            unit.scaled(weight)
        },
        None => Vec2::zero(),
    }
}

/// The mean position of the boid at `index` and the boids that `list`
/// names.
pub fn centroid_of(flock: &Flock, index: usize, list: &Vec<usize>) -> (v: Vec2)
    requires
        flock.wf(),
        index < flock@.len(),
        indices_below(list@, flock@.len()),
    ensures
        v@ == centroid(flock@, index as int, as_indices(list@)),
        v@.fits(LIMIT as int),
{
    let ghost s = flock@;
    let ghost indices = as_indices(list@);
    let mut x: i128 = 0;
    let mut y: i128 = 0;
    let mut k: usize = 0;
    while k < list.len()
        invariant
            k <= list@.len(),
            s == flock@,
            all_valid(s),
            indices == as_indices(list@),
            indices_below(list@, s.len()),
            position_sum(s, indices.subrange(0, k as int)) == (Vector { x: x as int, y: y as int }),
            -(k * LIMIT) <= x <= k * LIMIT,
            -(k * LIMIT) <= y <= k * LIMIT,
        decreases list@.len() - k,
    {
        let p = flock.get(list[k]).position;
        proof {
            assert(s[list@[k as int] as int].valid());
            assert(indices.subrange(0, k + 1).drop_last() =~= indices.subrange(0, k as int));
        }
        x = x + p.x as i128;
        y = y + p.y as i128;
        k += 1;
    }
    let own = flock.get(index).position;
    let n: i128 = list.len() as i128 + 1;
    proof {
        assert(indices.subrange(0, k as int) =~= indices);
        assert(s[index as int].valid());
        lemma_quotient_within(own.x + x, n as int, LIMIT as int);
        lemma_quotient_within(own.y + y, n as int, LIMIT as int);
    }
    let mx: i128 = quotient(own.x as i128 + x, n);
    let my: i128 = quotient(own.y as i128 + y, n);
    Vec2 { x: mx as i64, y: my as i64 }
}

/// The mean heading of the boid at `index` and the boids that `list`
/// names.
pub fn mean_heading_of(flock: &Flock, index: usize, list: &Vec<usize>) -> (v: Vec2)
    requires
        flock.wf(),
        index < flock@.len(),
        indices_below(list@, flock@.len()),
    ensures
        v@ == mean_heading(flock@, index as int, as_indices(list@)),
        v@.fits(ONE as int),
{
    let ghost s = flock@;
    let ghost indices = as_indices(list@);
    let mut x: i128 = 0;
    let mut y: i128 = 0;
    let mut k: usize = 0;
    while k < list.len()
        invariant
            k <= list@.len(),
            s == flock@,
            all_valid(s),
            indices == as_indices(list@),
            indices_below(list@, s.len()),
            heading_sum(s, indices.subrange(0, k as int)) == (Vector { x: x as int, y: y as int }),
            -(k * ONE) <= x <= k * ONE,
            -(k * ONE) <= y <= k * ONE,
        decreases list@.len() - k,
    {
        let h = flock.get(list[k]).heading;
        proof {
            assert(s[list@[k as int] as int].valid());
            lemma_unit_fits(h@);
            assert(indices.subrange(0, k + 1).drop_last() =~= indices.subrange(0, k as int));
        }
        x = x + h.x as i128;
        y = y + h.y as i128;
        k += 1;
    }
    let own = flock.get(index).heading;
    let n: i128 = list.len() as i128 + 1;
    proof {
        assert(indices.subrange(0, k as int) =~= indices);
        assert(s[index as int].valid());
        lemma_unit_fits(own@);
        lemma_quotient_within(own.x + x, n as int, ONE as int);
        lemma_quotient_within(own.y + y, n as int, ONE as int);
    }
    let mx: i128 = quotient(own.x as i128 + x, n);
    let my: i128 = quotient(own.y as i128 + y, n);
    Vec2 { x: mx as i64, y: my as i64 }
}

/// The cohesion rule for the boid at `index`, whose neighbors are `near`.
pub fn cohesion(flock: &Flock, index: usize, near: &Neighborhood, config: &Config) -> (v: Vec2)
    requires
        flock.wf(),
        config.valid(),
        index < flock@.len(),
        near.indices() == neighbors(flock@, index as int, config.neighbor_radius as int),
    ensures
        v@ == cohesion_pull(flock@, index as int, *config),
        v@.fits(LIMIT as int),
{
    if near.neighbors.len() == 0 {
        return Vec2::zero();
    }
    proof {
        lemma_neighbors_before(
            flock@,
            index as int,
            config.neighbor_radius as int,
            flock@.len() as int,
        );
        assert forall|k: int| 0 <= k < near.neighbors@.len() implies (
        #[trigger] near.neighbors@[k]) < flock@.len() by {
            assert(near.indices()[k] == near.neighbors@[k]);
        }
        assert(flock@[index as int].valid());
    }
    let centre = centroid_of(flock, index, &near.neighbors);
    weigh_direction(centre.minus(flock.get(index).position), config.cohesion_weight)
}

/// The separation rule for the boid at `index`, whose neighbors are
/// `near`.
pub fn separation(flock: &Flock, index: usize, near: &Neighborhood, config: &Config) -> (v: Vec2)
    requires
        flock.wf(),
        config.valid(),
        index < flock@.len(),
        near.nearest_index() == nearest(flock@, index as int, config.protected_radius as int),
    ensures
        v@ == separation_push(flock@, index as int, *config),
        v@.fits(LIMIT as int),
{
    match near.nearest {
        Some(j) => {
            proof {
                lemma_nearest_before(
                    flock@,
                    index as int,
                    config.protected_radius as int,
                    flock@.len() as int,
                );
                assert(flock@[index as int].valid());
                assert(flock@[j as int].valid());
            }
            weigh_direction(
                flock.get(index).position.minus(flock.get(j).position),
                config.separation_weight,
            )
        },
        None => Vec2::zero(),
    }
}

/// The alignment rule for the boid at `index`, whose neighbors are `near`.
pub fn alignment(flock: &Flock, index: usize, near: &Neighborhood, config: &Config) -> (v: Vec2)
    requires
        flock.wf(),
        config.valid(),
        index < flock@.len(),
        near.indices() == neighbors(flock@, index as int, config.neighbor_radius as int),
    ensures
        v@ == alignment_pull(flock@, index as int, *config),
        v@.fits(LIMIT as int),
{
    if near.neighbors.len() == 0 {
        return Vec2::zero();
    }
    proof {
        lemma_neighbors_before(
            flock@,
            index as int,
            config.neighbor_radius as int,
            flock@.len() as int,
        );
        assert forall|k: int| 0 <= k < near.neighbors@.len() implies (
        #[trigger] near.neighbors@[k]) < flock@.len() by {
            assert(near.indices()[k] == near.neighbors@[k]);
        }
    }
    weigh_direction(mean_heading_of(flock, index, &near.neighbors), config.alignment_weight)
}

/// The goal rule for the boid at `index`.
pub fn goal_seeking(flock: &Flock, index: usize, config: &Config) -> (v: Vec2)
    requires
        flock.wf(),
        config.valid(),
        index < flock@.len(),
    ensures
        v@ == goal_pull(flock@, index as int, *config),
        v@.fits(LIMIT as int),
{
    proof {
        assert(flock@[index as int].valid());
    }
    weigh_direction(config.goal.minus(flock.get(index).position), config.goal_weight)
}

/// The steering delta of the boid at `index`: finds its neighbors, and
/// sums the four rules.
pub fn steer(flock: &Flock, index: usize, config: &Config) -> (delta: Vec2)
    requires
        flock.wf(),
        config.valid(),
        index < flock@.len(),
    ensures
        delta@ == steering_delta(flock@, index as int, *config),
        delta@.fits(4 * LIMIT),
{
    let near = find_neighbors(flock, index, config);
    let a = cohesion(flock, index, &near, config);
    let b = separation(flock, index, &near, config);
    let c = alignment(flock, index, &near, config);
    let d = goal_seeking(flock, index, config);
    a.plus(b).plus(c).plus(d)
}

} // verus!

//! One tick of the simulation: every steering delta is computed from the
//! flock as it stands, and only then is any boid moved.

use vstd::prelude::*;
use crate::config::Config;
use crate::fixed::{
    div_toward_zero, lemma_product_bound, lemma_quotient_within, quotient, LIMIT, ONE,
};
use crate::flock::{all_valid, Boid, BoidModel, Flock};
use crate::neighbors::{nearest, nearest_before, neighbors, neighbors_before};
use crate::steering::{goal_pull, steer, steering_delta};
use crate::vector::{lemma_normalized_is_unit, lemma_unit_fits, Vec2, Vector};

verus! {

/// Nanoseconds in a second.
pub const NANOS_PER_SECOND: i128 = 1000000000;

/// The heading after the delta has acted on it. A delta of zero leaves the
/// heading as it is, and so does one that cancels it.
pub open spec fn next_heading(b: BoidModel, delta: Vector) -> Vector {
    if delta == Vector::zero() {
        b.heading
    } else {
        match b.heading.plus(delta).normalized() {
            Some(unit) => unit,
            None => b.heading,
        }
    }
}

/// The way made in one tick along `heading`.
pub open spec fn displacement(heading: Vector, c: Config) -> Vector {
    Vector {
        x: div_toward_zero(
            heading.x * c.speed * c.tick_nanos,
            (ONE as int) * (NANOS_PER_SECOND as int),
        ),
        y: div_toward_zero(
            heading.y * c.speed * c.tick_nanos,
            (ONE as int) * (NANOS_PER_SECOND as int),
        ),
    }
}

/// The boid after one tick under `delta`: it turns, then moves along its
/// new heading. A position that would leave the world stops at its edge.
pub open spec fn moved(b: BoidModel, delta: Vector, c: Config) -> BoidModel {
    let heading = next_heading(b, delta);
    BoidModel {
        position: b.position.plus(displacement(heading, c)).clamped(LIMIT as int),
        heading,
    }
}

/// The steering delta of every boid of `s`.
pub open spec fn deltas(s: Seq<BoidModel>, c: Config) -> Seq<Vector> {
    Seq::new(s.len(), |i: int| steering_delta(s, i, c))
}

/// Every boid of `s` moved under its own delta.
pub open spec fn applied(s: Seq<BoidModel>, d: Seq<Vector>, c: Config) -> Seq<BoidModel> {
    Seq::new(s.len(), |i: int| moved(s[i], d[i], c))
}

/// The flock one tick after `s`.
pub open spec fn ticked(s: Seq<BoidModel>, c: Config) -> Seq<BoidModel> {
    applied(s, deltas(s, c), c)
}

/// The vectors that `list` holds.
pub open spec fn as_vectors(list: Seq<Vec2>) -> Seq<Vector> {
    Seq::new(list.len(), |k: int| list[k]@)
}

/// Every vector of `list` is small enough to be added to a heading.
pub open spec fn deltas_fit(list: Seq<Vec2>) -> bool {
    forall|k: int| 0 <= k < list.len() ==> (#[trigger] list[k])@.fits(4 * LIMIT)
}

/// A valid boid stays valid when it moves: its heading keeps length one
/// and its position stays inside the world.
pub proof fn lemma_moved_valid(b: BoidModel, delta: Vector, c: Config)
    requires
        b.valid(),
    ensures
        moved(b, delta, c).valid(),
{
    if delta != Vector::zero() && !b.heading.plus(delta).is_degenerate() {
        lemma_normalized_is_unit(b.heading.plus(delta));
    }
}

/// After a tick every heading has length one and every position is inside
/// the world, whatever the flock and the configuration.
pub proof fn lemma_tick_keeps_valid(s: Seq<BoidModel>, c: Config)
    requires
        all_valid(s),
    ensures
        all_valid(ticked(s, c)),
        ticked(s, c).len() == s.len(),
{
    assert forall|i: int| 0 <= i < s.len() implies (#[trigger] ticked(s, c)[i]).valid() by {
        lemma_moved_valid(s[i], deltas(s, c)[i], c);
    }
}

/// A boid whose rules sum to zero keeps its heading through the tick.
pub proof fn lemma_zero_delta_keeps_heading(s: Seq<BoidModel>, c: Config, i: int)
    requires
        0 <= i < s.len(),
        steering_delta(s, i, c) == Vector::zero(),
    ensures
        ticked(s, c)[i].heading == s[i].heading,
{
}

/// The deltas of a stretch of the flock, computed in two parts, are those
/// of the stretch computed in one.
pub proof fn lemma_deltas_by_parts(s: Seq<BoidModel>, c: Config, start: int, middle: int, end: int)
    requires
        0 <= start <= middle <= end <= s.len(),
    ensures
        deltas(s, c).subrange(start, middle) + deltas(s, c).subrange(middle, end) == deltas(
            s,
            c,
        ).subrange(start, end),
{
    assert(deltas(s, c).subrange(start, middle) + deltas(s, c).subrange(middle, end) =~= deltas(
        s,
        c,
    ).subrange(start, end));
}

/// How a boid moves depends on its own state and its own delta alone: the
/// flock after a tick is the same in whatever order the boids are moved.
pub proof fn lemma_moves_are_independent(
    s: Seq<BoidModel>,
    d: Seq<Vector>,
    c: Config,
    i: int,
    other: BoidModel,
    j: int,
)
    requires
        0 <= i < s.len(),
        0 <= j < s.len(),
        i != j,
    ensures
        applied(s.update(j, other), d, c)[i] == applied(s, d, c)[i],
{
}

/// A boid alone in the flock is steered by the goal rule only.
pub proof fn lemma_lone_boid_follows_goal(s: Seq<BoidModel>, c: Config)
    requires
        s.len() == 1,
    ensures
        steering_delta(s, 0, c) == goal_pull(s, 0, c),
{
    reveal_with_fuel(neighbors_before, 2);
    reveal_with_fuel(nearest_before, 2);
    assert(neighbors(s, 0, c.neighbor_radius as int).len() == 0);
    assert(nearest(s, 0, c.protected_radius as int) is None);
}

/// Moves one boid under its delta.
pub fn move_boid(boid: Boid, delta: Vec2, config: &Config) -> (r: Boid)
    requires
        boid@.valid(),
        delta@.fits(4 * LIMIT),
        config.valid(),
    ensures
        r@ == moved(boid@, delta@, *config),
        r@.valid(),
{
    proof {
        lemma_unit_fits(boid.heading@);
        lemma_moved_valid(boid@, delta@, *config);
    }
    let heading = if delta.x == 0 && delta.y == 0 {
        boid.heading
    } else {
        match boid.heading.plus(delta).normalize() {
            Some(unit) => unit,
            None => boid.heading,
        }
    };
    proof {
        lemma_unit_fits(heading@);
        lemma_product_bound(heading.x as int, config.speed as int, ONE as int, LIMIT as int);
        lemma_product_bound(heading.y as int, config.speed as int, ONE as int, LIMIT as int);
        lemma_product_bound(
            heading.x * config.speed,
            config.tick_nanos as int,
            ONE * LIMIT,
            u64::MAX as int,
        );
        lemma_product_bound(
            heading.y * config.speed,
            config.tick_nanos as int,
            ONE * LIMIT,
            u64::MAX as int,
        );
    }
    let nanos: i128 = config.tick_nanos as i128;
    let divisor: i128 = ONE as i128 * NANOS_PER_SECOND;
    let dx: i128 = quotient(heading.x as i128 * config.speed as i128 * nanos, divisor);
    let dy: i128 = quotient(heading.y as i128 * config.speed as i128 * nanos, divisor);
    proof {
        lemma_quotient_within(
            heading.x * config.speed * config.tick_nanos,
            divisor as int,
            ONE * LIMIT * u64::MAX,
        );
        lemma_quotient_within(
            heading.y * config.speed * config.tick_nanos,
            divisor as int,
            ONE * LIMIT * u64::MAX,
        );
    }
    let x = clamp_coordinate(boid.position.x as i128 + dx);
    let y = clamp_coordinate(boid.position.y as i128 + dy);
    Boid { position: Vec2 { x, y }, heading }
}

/// Brings a coordinate back into the world.
fn clamp_coordinate(value: i128) -> (r: i64)
    ensures
        r == if value < -LIMIT {
            -LIMIT as int
        } else if value > LIMIT {
            LIMIT as int
        } else {
            value as int
        },
{
    if value < -(LIMIT as i128) {
        -LIMIT
    } else if value > LIMIT as i128 {
        LIMIT
    } else {
        value as i64
    }
}

/// The compute phase for the boids from `start` up to `end`: reads the
/// flock and writes nothing, so that stretches can be computed in any order
/// or side by side.
pub fn compute_deltas_range(flock: &Flock, config: &Config, start: usize, end: usize) -> (out: Vec<
    Vec2,
>)
    requires
        flock.wf(),
        config.valid(),
        start <= end <= flock@.len(),
    ensures
        out@.len() == end - start,
        as_vectors(out@) == deltas(flock@, *config).subrange(start as int, end as int),
        deltas_fit(out@),
{
    let mut out: Vec<Vec2> = Vec::new();
    let mut i: usize = start;
    while i < end
        invariant
            start <= i <= end <= flock@.len(),
            flock.wf(),
            config.valid(),
            out@.len() == i - start,
            forall|k: int|
                0 <= k < out@.len() ==> (#[trigger] out@[k])@ == steering_delta(
                    flock@,
                    start + k,
                    *config,
                ),
            deltas_fit(out@),
        decreases end - i,
    {
        let delta = steer(flock, i, config);
        out.push(delta);
        i += 1;
    }
    assert(as_vectors(out@) =~= deltas(flock@, *config).subrange(start as int, end as int));
    out
}

/// The compute phase: the steering delta of every boid, from the flock as
/// it stands.
pub fn compute_deltas(flock: &Flock, config: &Config) -> (out: Vec<Vec2>)
    requires
        flock.wf(),
        config.valid(),
    ensures
        out@.len() == flock@.len(),
        as_vectors(out@) == deltas(flock@, *config),
        deltas_fit(out@),
{
    let out = compute_deltas_range(flock, config, 0, flock.len());
    assert(deltas(flock@, *config).subrange(0, flock@.len() as int) =~= deltas(flock@, *config));
    out
}

/// The apply phase: moves every boid under its own delta, in the order of
/// the flock.
pub fn apply_deltas(flock: &mut Flock, list: &Vec<Vec2>, config: &Config)
    requires
        old(flock).wf(),
        config.valid(),
        list@.len() == old(flock)@.len(),
        deltas_fit(list@),
    ensures
        final(flock)@ == applied(old(flock)@, as_vectors(list@), *config),
        final(flock).wf(),
{
    let ghost before = flock@;
    let count = flock.len();
    let mut i: usize = 0;
    while i < count
        invariant
            i <= count == before.len(),
            flock@.len() == before.len(),
            list@.len() == before.len(),
            all_valid(before),
            config.valid(),
            deltas_fit(list@),
            forall|k: int|
                0 <= k < i ==> #[trigger] flock@[k] == moved(before[k], list@[k]@, *config),
            forall|k: int| i <= k < count ==> #[trigger] flock@[k] == before[k],
        decreases count - i,
    {
        let boid = flock.get(i);
        assert(before[i as int].valid());
        let next = move_boid(boid, list[i], config);
        flock.put(i, next);
        i += 1;
    }
    proof {
        assert(flock@ =~= applied(before, as_vectors(list@), *config));
        assert forall|k: int| 0 <= k < flock@.len() implies (#[trigger] flock@[k]).valid() by {
            lemma_moved_valid(before[k], list@[k]@, *config);
        }
    }
}

/// One tick: the compute phase on the whole flock, then the apply phase.
pub fn tick(flock: &mut Flock, config: &Config)
    requires
        old(flock).wf(),
        config.valid(),
    ensures
        final(flock)@ == ticked(old(flock)@, *config),
        final(flock).wf(),
{
    let list = compute_deltas(flock, config);
    assert(as_vectors(list@).len() == list@.len());
    apply_deltas(flock, &list, config);
}

} // verus!

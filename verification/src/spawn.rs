//! The flock at the start: boids placed at random inside the bounds, each
//! with a random heading.

use vstd::prelude::*;
use vstd::arithmetic::div_mod::lemma_mod_multiples_basic;
use rand::rngs::ThreadRng;
use rand::Rng;
use crate::config::{Config, MAX_EXTENT};
use crate::fixed::{lemma_floor_sqrt_unique, EPSILON_SQUARED, ONE, ONE_SQUARED};
use crate::flock::{Boid, Flock};
use crate::vector::{Vec2, Vector};

verus! {

/// The thread-local generator of `rand`. Nothing is known of its state.
#[verifier::external_type_specification]
#[verifier::external_body]
pub struct ExThreadRng(rand::rngs::ThreadRng);

/// How often a heading is drawn before the fallback is taken.
pub const HEADING_ATTEMPTS: u32 = 64;

/// Calls `rand::Rng::gen_range` on the half-open range `low..high`. The
/// generator panics on an empty range, so the range must hold a number; the
/// number that comes back lies in the range. Which one it is depends on
/// the generator alone.
#[verifier::external_body]
fn sample_range(rng: &mut ThreadRng, low: i64, high: i64) -> (r: i64)
    requires
        low < high,
    ensures
        low <= r < high,
{
    rng.gen_range(low..high)
}

/// `position` is a corner of the unit grid strictly inside the bounds.
pub open spec fn placed_within(position: Vector, width: int, height: int) -> bool {
    &&& ONE <= position.x < width * ONE
    &&& position.x % (ONE as int) == 0
    &&& ONE <= position.y < height * ONE
    &&& position.y % (ONE as int) == 0
}

/// `(x, y)` lies in the disc of radius `ONE` and far enough from its
/// centre to have a direction.
pub open spec fn in_unit_disc(x: int, y: int) -> bool {
    &&& -ONE <= x <= ONE
    &&& -ONE <= y <= ONE
    &&& EPSILON_SQUARED <= x * x + y * y <= ONE_SQUARED
}

/// The heading toward a point drawn from the square around the unit disc:
/// the direction of `(x, y)` where the point lies in the disc, none where
/// it does not. Points of the disc are spread evenly over all directions;
/// those of the corners are not, so they are turned down.
pub fn heading_from_sample(x: i64, y: i64) -> (r: Option<Vec2>)
    ensures
        r is Some <==> in_unit_disc(x as int, y as int),
        r matches Some(h) ==> (Vector { x: x as int, y: y as int }).normalized() == Some(h@)
            && h@.is_unit(),
{
    if !(-ONE <= x && x <= ONE && -ONE <= y && y <= ONE) {
        return None;
    }
    let candidate = Vec2 { x, y };
    let n: u128 = candidate.length_squared();
    if n < EPSILON_SQUARED || n > ONE_SQUARED {
        return None;
    }
    candidate.normalize()
}

/// The point at distance `ONE` along the x axis lies in the unit disc and
/// is its own direction.
proof fn lemma_x_axis_is_a_heading()
    ensures
        in_unit_disc(ONE as int, 0),
        (Vector { x: ONE as int, y: 0 }).normalized() == Some(Vector { x: ONE as int, y: 0 }),
        (Vector { x: ONE as int, y: 0 }).is_unit(),
{
    let v = Vector { x: ONE as int, y: 0 };
    assert(v.x * v.x == 4294967296 && v.y * v.y == 0) by (nonlinear_arith)
        requires
            v.x == 65536,
            v.y == 0,
    ;
    assert(4294967296 * 4294967296 == 18446744073709551616int) by (nonlinear_arith);
    assert(4294967297 * 4294967297 > 18446744073709551616int) by (nonlinear_arith);
    lemma_floor_sqrt_unique(18446744073709551616, 4294967296);
    assert(v.fine_length() == 4294967296);
    assert(v.x * 4294967296 == 281474976710656) by (nonlinear_arith)
        requires
            v.x == 65536,
    ;
}

/// A heading in a random direction: that of a point of the unit disc.
/// Should every draw fall outside the disc, the heading points along the
/// x axis.
pub fn random_heading(rng: &mut ThreadRng) -> (h: Vec2)
    ensures
        h@.is_unit(),
        exists|x: int, y: int| #[trigger]
            in_unit_disc(x, y) && (Vector { x, y }).normalized() == Some(h@),
{
    let mut attempt: u32 = 0;
    while attempt < HEADING_ATTEMPTS
        invariant
            attempt <= HEADING_ATTEMPTS,
        decreases HEADING_ATTEMPTS - attempt,
    {
        let x = sample_range(rng, -ONE, ONE + 1);
        let y = sample_range(rng, -ONE, ONE + 1);
        match heading_from_sample(x, y) {
            Some(h) => {
                assert(in_unit_disc(x as int, y as int));
                return h;
            },
            None => {},
        }
        attempt += 1;
    }
    proof {
        lemma_x_axis_is_a_heading();
    }
    Vec2 { x: ONE, y: 0 }
}

/// The boid on the corner of the unit grid at `column` and `row`, headed
/// along `heading`.
pub fn boid_on_grid(column: i64, row: i64, heading: Vec2) -> (b: Boid)
    requires
        0 <= column <= MAX_EXTENT,
        0 <= row <= MAX_EXTENT,
        heading@.is_unit(),
    ensures
        b@.valid(),
        b.position@ == (Vector { x: column * ONE, y: row * ONE }),
        b.heading == heading,
{
    Boid { position: Vec2 { x: column * ONE, y: row * ONE }, heading }
}

/// A boid at a random place inside the bounds of `config`, with a random
/// heading.
pub fn random_boid(rng: &mut ThreadRng, config: &Config) -> (b: Boid)
    requires
        config.valid(),
    ensures
        b@.valid(),
        placed_within(b@.position, config.width as int, config.height as int),
{
    let column = sample_range(rng, 1, config.width as i64);
    let row = sample_range(rng, 1, config.height as i64);
    let heading = random_heading(rng);
    proof {
        lemma_mod_multiples_basic(column as int, ONE as int);
        lemma_mod_multiples_basic(row as int, ONE as int);
    }
    boid_on_grid(column, row, heading)
}

/// A flock of `config.population` boids, each placed and headed at random.
pub fn random_flock(rng: &mut ThreadRng, config: &Config) -> (flock: Flock)
    requires
        config.valid(),
    ensures
        flock.wf(),
        flock@.len() == config.population,
        forall|i: int|
            0 <= i < flock@.len() ==> placed_within(
                (#[trigger] flock@[i]).position,
                config.width as int,
                config.height as int,
            ),
{
    let mut boids: Vec<Boid> = Vec::new();
    let mut i: usize = 0;
    while i < config.population
        invariant
            i <= config.population,
            config.valid(),
            boids@.len() == i,
            forall|k: int| 0 <= k < i ==> (#[trigger] boids@[k])@.valid(),
            forall|k: int|
                0 <= k < i ==> placed_within(
                    (#[trigger] boids@[k])@.position,
                    config.width as int,
                    config.height as int,
                ),
        decreases config.population - i,
    {
        let boid = random_boid(rng, config);
        boids.push(boid);
        i += 1;
    }
    Flock::assemble(boids)
}

} // verus!

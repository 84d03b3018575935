//! Boids and the flock that holds them.

use vstd::prelude::*;
use crate::config::scalar_within_limit;
use crate::fixed::{LIMIT, VECTOR_LIMIT};
use crate::vector::{Vec2, Vector};

verus! {

/// What a boid is to the rules: where it is and where it is headed.
pub struct BoidModel {
    pub position: Vector,
    pub heading: Vector,
}

impl BoidModel {
    /// The position is inside the world and the heading has length one.
    pub open spec fn valid(self) -> bool {
        self.position.fits(LIMIT as int) && self.heading.is_unit()
    }
}

/// One member of the flock.
#[derive(Clone, Copy, Debug, PartialEq, Eq, Structural)]
pub struct Boid {
    pub position: Vec2,
    pub heading: Vec2,
}

impl View for Boid {
    type V = BoidModel;

    open spec fn view(&self) -> BoidModel {
        BoidModel { position: self.position@, heading: self.heading@ }
    }
}

impl Boid {
    /// A boid at `position` that faces along `direction`. There is none
    /// where the position lies outside the world, or where the direction is
    /// too long to measure or too short to point anywhere.
    pub fn new(position: Vec2, direction: Vec2) -> (r: Option<Boid>)
        ensures
            r is Some <==> position@.fits(LIMIT as int) && direction@.fits(VECTOR_LIMIT as int)
                && !direction@.is_degenerate(),
            r matches Some(b) ==> b.position == position && direction@.normalized() == Some(
                b.heading@,
            ) && b@.valid(),
    {
        if !(scalar_within_limit(position.x) && scalar_within_limit(position.y)) {
            return None;
        }
        if !(-VECTOR_LIMIT <= direction.x && direction.x <= VECTOR_LIMIT && -VECTOR_LIMIT
            <= direction.y && direction.y <= VECTOR_LIMIT) {
            return None;
        }
        match direction.normalize() {
            Some(heading) => Some(Boid { position, heading }),
            None => None,
        }
    }

    /// Whether the position is inside the world and the heading has length
    /// one.
    pub fn is_valid(&self) -> (b: bool)
        ensures
            b == self@.valid(),
    {
        scalar_within_limit(self.position.x) && scalar_within_limit(self.position.y)
            && self.heading.is_unit()
    }
}

/// The boids of a simulation, in an order that never changes. A boid is
/// known by its index.
pub struct Flock {
    boids: Vec<Boid>,
}

impl View for Flock {
    type V = Seq<BoidModel>;

    closed spec fn view(&self) -> Seq<BoidModel> {
        Seq::new(self.boids@.len(), |i: int| self.boids@[i]@)
    }
}

/// Every boid of `s` is valid.
pub open spec fn all_valid(s: Seq<BoidModel>) -> bool {
    forall|i: int| 0 <= i < s.len() ==> (#[trigger] s[i]).valid()
}

impl Flock {
    /// Every boid of the flock is valid.
    pub open spec fn wf(&self) -> bool {
        all_valid(self@)
    }

    /// The flock of the given boids, in their order. There is none where
    /// one of them is not valid.
    pub fn from_boids(boids: Vec<Boid>) -> (r: Option<Flock>)
        ensures
            r is Some <==> forall|i: int| 0 <= i < boids@.len() ==> (#[trigger] boids@[i])@.valid(),
            r matches Some(f) ==> f.wf() && f@.len() == boids@.len() && forall|i: int|
                #![trigger f@[i]]
                #![trigger boids@[i]]
                0 <= i < boids@.len() ==> f@[i] == boids@[i]@,
    {
        let mut i: usize = 0;
        while i < boids.len()
            invariant
                i <= boids@.len(),
                forall|k: int| 0 <= k < i ==> (#[trigger] boids@[k])@.valid(),
            decreases boids@.len() - i,
        {
            if !boids[i].is_valid() {
                return None;
            }
            i += 1;
        }
        Some(Flock::assemble(boids))
    }

    /// The flock of boids that are known to be valid.
    pub(crate) fn assemble(boids: Vec<Boid>) -> (f: Flock)
        requires
            forall|i: int| 0 <= i < boids@.len() ==> (#[trigger] boids@[i])@.valid(),
        ensures
            f.wf(),
            f@.len() == boids@.len(),
            forall|i: int|
                #![trigger f@[i]]
                #![trigger boids@[i]]
                0 <= i < boids@.len() ==> f@[i] == boids@[i]@,
    {
        Flock { boids }
    }

    /// The number of boids.
    pub fn len(&self) -> (n: usize)
        ensures
            n == self@.len(),
    {
        self.boids.len()
    }

    /// The boid at `index`.
    pub fn get(&self, index: usize) -> (b: Boid)
        requires
            index < self@.len(),
        ensures
            b@ == self@[index as int],
    {
        self.boids[index]
    }

    /// Puts `boid` in the place of the boid at `index`, and says whether it
    /// did: a boid that is not valid, or an index beyond the flock, leaves
    /// the flock as it was.
    pub fn set(&mut self, index: usize, boid: Boid) -> (done: bool)
        requires
            old(self).wf(),
        ensures
            done <==> index < old(self)@.len() && boid@.valid(),
            final(self)@ == if done {
                old(self)@.update(index as int, boid@)
            } else {
                old(self)@
            },
            final(self).wf(),
    {
        if index < self.boids.len() && boid.is_valid() {
            self.put(index, boid);
            true
        } else {
            false
        }
    }

    /// Puts a boid that is known to be valid in the place of the boid at
    /// `index`.
    pub(crate) fn put(&mut self, index: usize, boid: Boid)
        requires
            index < old(self)@.len(),
            boid@.valid(),
        ensures
            final(self)@ == old(self)@.update(index as int, boid@),
            old(self).wf() ==> final(self).wf(),
    {
        self.boids.set(index, boid);
        assert(self@ =~= old(self)@.update(index as int, boid@));
    }

    /// The boids in order.
    pub fn to_vec(&self) -> (v: Vec<Boid>)
        ensures
            v@.len() == self@.len(),
            forall|i: int|
                #![trigger v@[i]]
                #![trigger self@[i]]
                0 <= i < v@.len() ==> v@[i]@ == self@[i],
    {
        self.boids.clone()
    }
}

} // verus!

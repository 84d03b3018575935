//! The parameters of a simulation, fixed for its lifetime.

use vstd::prelude::*;
use crate::fixed::LIMIT;
use crate::vector::Vec2;

verus! {

/// Largest width or height of the simulation bounds, in whole units (2^24).
pub const MAX_EXTENT: i32 = 16777216;

/// Everything that shapes a run. Lengths, weights and the speed are
/// fixed-point numbers; the bounds are whole units.
#[derive(Clone, Copy, Debug, PartialEq, Eq, Structural)]
pub struct Config {
    /// Number of boids in the flock.
    pub population: usize,
    /// Width of the area that the flock starts in.
    pub width: i32,
    /// Height of the area that the flock starts in.
    pub height: i32,
    /// A boid within this distance is a neighbor.
    pub neighbor_radius: i64,
    /// A boid within this distance is too close.
    pub protected_radius: i64,
    pub separation_weight: i64,
    pub alignment_weight: i64,
    pub cohesion_weight: i64,
    pub goal_weight: i64,
    /// Distance covered in one second.
    pub speed: i64,
    /// The point that every boid is drawn to.
    pub goal: Vec2,
    /// Length of one simulation tick, in nanoseconds.
    pub tick_nanos: u64,
}

/// Why a configuration was turned down.
#[derive(Clone, Copy, Debug, PartialEq, Eq, Structural)]
pub enum ConfigError {
    /// The bounds leave no room to place a boid, or exceed `MAX_EXTENT`.
    BadBounds,
    /// A radius is negative.
    NegativeRadius,
    /// The protected radius is larger than the neighbor radius.
    ProtectedExceedsNeighbor,
    /// A weight, the speed or a coordinate of the goal exceeds `LIMIT`.
    OutOfRange,
    /// A tick has no duration.
    ZeroTick,
}

/// `value` lies within `LIMIT` of zero.
pub open spec fn within_limit(value: int) -> bool {
    -LIMIT <= value <= LIMIT
}

impl Config {
    pub open spec fn bounds_ok(&self) -> bool {
        1 < self.width <= MAX_EXTENT && 1 < self.height <= MAX_EXTENT
    }

    pub open spec fn radii_nonnegative(&self) -> bool {
        0 <= self.neighbor_radius && 0 <= self.protected_radius
    }

    pub open spec fn scalars_in_range(&self) -> bool {
        &&& within_limit(self.separation_weight as int)
        &&& within_limit(self.alignment_weight as int)
        &&& within_limit(self.cohesion_weight as int)
        &&& within_limit(self.goal_weight as int)
        &&& within_limit(self.speed as int)
        &&& self.goal@.fits(LIMIT as int)
    }

    /// The first fault of the configuration, if it has one.
    pub open spec fn fault(&self) -> Option<ConfigError> {
        if !self.bounds_ok() {
            Some(ConfigError::BadBounds)
        } else if !self.radii_nonnegative() {
            Some(ConfigError::NegativeRadius)
        } else if self.protected_radius > self.neighbor_radius {
            Some(ConfigError::ProtectedExceedsNeighbor)
        } else if !self.scalars_in_range() {
            Some(ConfigError::OutOfRange)
        } else if self.tick_nanos == 0 {
            Some(ConfigError::ZeroTick)
        } else {
            None
        }
    }

    /// A simulation can run on this configuration.
    pub open spec fn valid(&self) -> bool {
        &&& self.bounds_ok()
        &&& self.radii_nonnegative()
        &&& self.protected_radius <= self.neighbor_radius
        &&& self.scalars_in_range()
        &&& self.tick_nanos > 0
    }

    /// Accepts the configuration, or names its first fault.
    pub fn check(&self) -> (r: Result<(), ConfigError>)
        ensures
            r is Ok <==> self.valid(),
            match r {
                Ok(_) => self.fault() is None,
                Err(e) => self.fault() == Some(e),
            },
    {
        if !(1 < self.width && self.width <= MAX_EXTENT && 1 < self.height && self.height
            <= MAX_EXTENT) {
            return Err(ConfigError::BadBounds);
        }
        if self.neighbor_radius < 0 || self.protected_radius < 0 {
            return Err(ConfigError::NegativeRadius);
        }
        if self.protected_radius > self.neighbor_radius {
            return Err(ConfigError::ProtectedExceedsNeighbor);
        }
        if !(scalar_within_limit(self.separation_weight) && scalar_within_limit(
            self.alignment_weight,
        ) && scalar_within_limit(self.cohesion_weight) && scalar_within_limit(self.goal_weight)
            && scalar_within_limit(self.speed) && scalar_within_limit(self.goal.x)
            && scalar_within_limit(self.goal.y)) {
            return Err(ConfigError::OutOfRange);
        }
        if self.tick_nanos == 0 {
            return Err(ConfigError::ZeroTick);
        }
        Ok(())
    }
}

/// Whether `value` lies within `LIMIT` of zero.
pub fn scalar_within_limit(value: i64) -> (b: bool)
    ensures
        b == within_limit(value as int),
{
    -LIMIT <= value && value <= LIMIT
}

} // verus!

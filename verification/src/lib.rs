//! A flocking ("boids") simulation core in fixed-point arithmetic.
//!
//! Every quantity is an integer count of `1 / ONE` units, so that a tick is
//! an exact function of the state it starts from: the same flock and the
//! same configuration always give the same next flock.
//!
//! A tick has two phases. The compute phase reads the flock and gives one
//! steering delta for each boid: the sum of cohesion, separation, alignment
//! and goal seeking, each found from the boids near it. The apply phase
//! then turns and moves every boid under its own delta. Frame time is
//! turned into whole ticks by a scheduler that carries the remainder over.

pub mod fixed;
pub mod vector;
pub mod config;
pub mod flock;
pub mod neighbors;
pub mod steering;
pub mod pipeline;
pub mod scheduler;
pub mod simulation;
pub mod spawn;
pub mod scene;

//! A flock, its configuration and its clock: frame time comes in, and the
//! flock moves on by whole ticks.

use vstd::prelude::*;
use vstd::arithmetic::div_mod::lemma_div_pos_is_pos;
use crate::config::{Config, ConfigError};
use crate::flock::{all_valid, BoidModel, Flock};
use crate::pipeline::{lemma_tick_keeps_valid, tick, ticked};
use crate::scheduler::{
    all_nonnegative, carried, carried_over, lemma_equal_time_equal_ticks, lemma_time_is_conserved,
    ticks_due, ticks_over, total, Scheduler,
};

verus! {

/// The flock `k` ticks after `s`.
pub open spec fn after_ticks(s: Seq<BoidModel>, c: Config, k: int) -> Seq<BoidModel>
    decreases k,
{
    if k <= 0 {
        s
    } else {
        ticked(after_ticks(s, c, k - 1), c)
    }
}

/// However many ticks run, every heading keeps length one, every position
/// stays inside the world, and no boid joins or leaves the flock.
pub proof fn lemma_ticks_keep_valid(s: Seq<BoidModel>, c: Config, k: int)
    requires
        all_valid(s),
    ensures
        all_valid(after_ticks(s, c, k)),
        after_ticks(s, c, k).len() == s.len(),
    decreases k,
{
    if k > 0 {
        lemma_ticks_keep_valid(s, c, k - 1);
        lemma_tick_keeps_valid(after_ticks(s, c, k - 1), c);
    }
}

/// Ticks add up: `j` ticks and then `k` more are `j + k` ticks.
pub proof fn lemma_ticks_add_up(s: Seq<BoidModel>, c: Config, j: int, k: int)
    requires
        0 <= j,
        0 <= k,
    ensures
        after_ticks(after_ticks(s, c, j), c, k) == after_ticks(s, c, j + k),
    decreases k,
{
    if k > 0 {
        lemma_ticks_add_up(s, c, j, k - 1);
    }
}

/// The flock after a run of frames, each of which runs the ticks that fall
/// due with it.
pub open spec fn after_frames(s: Seq<BoidModel>, c: Config, pending: int, frames: Seq<int>) -> Seq<
    BoidModel,
>
    decreases frames.len(),
{
    if frames.len() == 0 {
        s
    } else {
        after_ticks(
            after_frames(s, c, pending, frames.drop_last()),
            c,
            ticks_due(
                carried_over(pending, frames.drop_last(), c.tick_nanos as int),
                frames.last(),
                c.tick_nanos as int,
            ),
        )
    }
}

/// A run of frames moves the flock on by the ticks that fall due over the
/// run, one after the other.
pub proof fn lemma_frames_run_their_ticks(
    s: Seq<BoidModel>,
    c: Config,
    pending: int,
    frames: Seq<int>,
)
    requires
        0 <= pending < c.tick_nanos,
        all_nonnegative(frames),
    ensures
        after_frames(s, c, pending, frames) == after_ticks(
            s,
            c,
            ticks_over(pending, frames, c.tick_nanos as int),
        ),
    decreases frames.len(),
{
    if frames.len() > 0 {
        let period = c.tick_nanos as int;
        let front = frames.drop_last();
        lemma_frames_run_their_ticks(s, c, pending, front);
        lemma_time_is_conserved(pending, front, period);
        let rest = carried_over(pending, front, period);
        lemma_div_pos_is_pos(rest + frames.last(), period);
        lemma_ticks_add_up(
            s,
            c,
            ticks_over(pending, front, period),
            ticks_due(rest, frames.last(), period),
        );
    }
}

/// Two runs of frames of the same length leave the same flock: how the
/// time is split among the frames does not matter.
pub proof fn lemma_split_does_not_matter(
    s: Seq<BoidModel>,
    c: Config,
    pending: int,
    first: Seq<int>,
    second: Seq<int>,
)
    requires
        0 <= pending < c.tick_nanos,
        all_nonnegative(first),
        all_nonnegative(second),
        total(first) == total(second),
    ensures
        after_frames(s, c, pending, first) == after_frames(s, c, pending, second),
{
    lemma_frames_run_their_ticks(s, c, pending, first);
    lemma_frames_run_their_ticks(s, c, pending, second);
    lemma_equal_time_equal_ticks(pending, first, second, c.tick_nanos as int);
}

/// A running simulation.
pub struct Simulation {
    flock: Flock,
    config: Config,
    scheduler: Scheduler,
}

impl Simulation {
    /// The boids as they stand.
    pub closed spec fn boids(&self) -> Seq<BoidModel> {
        self.flock@
    }

    /// The configuration that the simulation was made with.
    pub closed spec fn settings(&self) -> Config {
        self.config
    }

    /// The nanoseconds that have come in and not yet been simulated.
    pub closed spec fn pending(&self) -> int {
        self.scheduler.pending()
    }

    /// The flock and the configuration are valid, and less than one tick
    /// is pending.
    pub closed spec fn wf(&self) -> bool {
        &&& self.flock.wf()
        &&& self.config.valid()
        &&& self.scheduler.wf()
        &&& self.scheduler.period() == self.config.tick_nanos
    }

    /// What `wf` promises, in terms that callers can see.
    pub proof fn lemma_wf(&self)
        requires
            self.wf(),
        ensures
            all_valid(self.boids()),
            self.settings().valid(),
            0 <= self.pending() < self.settings().tick_nanos,
    {
    }

    /// A simulation of `flock` under `config`, with nothing pending. A
    /// configuration with a fault is turned down with that fault.
    pub fn new(flock: Flock, config: Config) -> (r: Result<Simulation, ConfigError>)
        requires
            flock.wf(),
        ensures
            match r {
                Ok(sim) => config.fault() is None && sim.wf() && sim.boids() == flock@
                    && sim.settings() == config && sim.pending() == 0,
                Err(e) => config.fault() == Some(e),
            },
    {
        match config.check() {
            Err(e) => Err(e),
            Ok(_) => {
                match Scheduler::new(config.tick_nanos) {
                    Some(scheduler) => Ok(Simulation { flock, config, scheduler }),
                    None => Err(ConfigError::ZeroTick),
                }
            },
        }
    }

    /// The flock, to read between ticks.
    pub fn flock(&self) -> (f: &Flock)
        ensures
            f@ == self.boids(),
            self.wf() ==> f.wf(),
    {
        &self.flock
    }

    /// The configuration.
    pub fn config(&self) -> (c: &Config)
        ensures
            *c == self.settings(),
    {
        &self.config
    }

    /// The nanoseconds that have come in and not yet been simulated.
    pub fn pending_nanos(&self) -> (n: u64)
        ensures
            n == self.pending(),
    {
        self.scheduler.pending_nanos()
    }

    /// Runs one tick, whatever time is pending.
    pub fn step(&mut self)
        requires
            old(self).wf(),
        ensures
            final(self).wf(),
            final(self).boids() == ticked(old(self).boids(), old(self).settings()),
            final(self).settings() == old(self).settings(),
            final(self).pending() == old(self).pending(),
    {
        tick(&mut self.flock, &self.config);
    }

    /// Takes in a frame of `frame_nanos` nanoseconds and runs every tick
    /// that is now due: none where the frame was short, several where it
    /// was long. Returns how many ran.
    pub fn advance(&mut self, frame_nanos: u64) -> (ticks: u64)
        requires
            old(self).wf(),
        ensures
            final(self).wf(),
            final(self).settings() == old(self).settings(),
            ticks == ticks_due(
                old(self).pending(),
                frame_nanos as int,
                old(self).settings().tick_nanos as int,
            ),
            final(self).pending() == carried(
                old(self).pending(),
                frame_nanos as int,
                old(self).settings().tick_nanos as int,
            ),
            final(self).boids() == after_ticks(
                old(self).boids(),
                old(self).settings(),
                ticks as int,
            ),
    {
        let ghost start = self.flock@;
        let ticks = self.scheduler.accrue(frame_nanos);
        let mut done: u64 = 0;
        while done < ticks
            invariant
                done <= ticks,
                self.wf(),
                self.config == old(self).config,
                self.scheduler.pending() == carried(
                    old(self).pending(),
                    frame_nanos as int,
                    old(self).settings().tick_nanos as int,
                ),
                self.flock@ == after_ticks(start, self.config, done as int),
            decreases ticks - done,
        {
            tick(&mut self.flock, &self.config);
            done += 1;
        }
        ticks
    }
}

} // verus!

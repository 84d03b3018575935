//! The fixed-timestep scheduler: frames of any length go in, whole ticks
//! come out, and what is left of a frame waits for the next one.

use vstd::prelude::*;
use vstd::arithmetic::div_mod::{
    lemma_div_pos_is_pos, lemma_fundamental_div_mod, lemma_fundamental_div_mod_converse,
    lemma_mod_bound,
};

verus! {

/// The ticks that fall due when a frame of `frame` nanoseconds is added to
/// `pending` nanoseconds not yet simulated.
pub open spec fn ticks_due(pending: int, frame: int, period: int) -> int {
    (pending + frame) / period
}

/// The nanoseconds that remain once those ticks have run.
pub open spec fn carried(pending: int, frame: int, period: int) -> int {
    (pending + frame) % period
}

/// The ticks that fall due over a run of frames.
pub open spec fn ticks_over(pending: int, frames: Seq<int>, period: int) -> int
    decreases frames.len(),
{
    if frames.len() == 0 {
        0
    } else {
        ticks_over(pending, frames.drop_last(), period) + ticks_due(
            carried_over(pending, frames.drop_last(), period),
            frames.last(),
            period,
        )
    }
}

/// The nanoseconds that remain after a run of frames.
pub open spec fn carried_over(pending: int, frames: Seq<int>, period: int) -> int
    decreases frames.len(),
{
    if frames.len() == 0 {
        pending
    } else {
        carried(carried_over(pending, frames.drop_last(), period), frames.last(), period)
    }
}

/// The length of a run of frames.
pub open spec fn total(frames: Seq<int>) -> int
    decreases frames.len(),
{
    if frames.len() == 0 {
        0
    } else {
        total(frames.drop_last()) + frames.last()
    }
}

/// No frame has a negative length.
pub open spec fn all_nonnegative(frames: Seq<int>) -> bool {
    forall|k: int| 0 <= k < frames.len() ==> 0 <= #[trigger] frames[k]
}

/// No time is lost or made: the ticks that ran and the time still pending
/// add up to the time that came in, and less than one tick is pending.
pub proof fn lemma_time_is_conserved(pending: int, frames: Seq<int>, period: int)
    requires
        0 < period,
        0 <= pending < period,
        all_nonnegative(frames),
    ensures
        ticks_over(pending, frames, period) * period + carried_over(pending, frames, period)
            == pending + total(frames),
        0 <= carried_over(pending, frames, period) < period,
        0 <= ticks_over(pending, frames, period),
    decreases frames.len(),
{
    if frames.len() > 0 {
        let front = frames.drop_last();
        lemma_time_is_conserved(pending, front, period);
        let rest = carried_over(pending, front, period);
        let sum = rest + frames.last();
        lemma_fundamental_div_mod(sum, period);
        lemma_mod_bound(sum, period);
        lemma_div_pos_is_pos(sum, period);
        let a = ticks_over(pending, front, period);
        let b = sum / period;
        assert((a + b) * period == a * period + period * b) by (nonlinear_arith);
    }
}

/// Frames that add up to exactly `k` ticks run exactly `k` ticks, however
/// the time is split among them.
pub proof fn lemma_ticks_ignore_the_split(frames: Seq<int>, period: int, k: int)
    requires
        0 < period,
        all_nonnegative(frames),
        total(frames) == k * period,
    ensures
        ticks_over(0, frames, period) == k,
        carried_over(0, frames, period) == 0,
{
    lemma_time_is_conserved(0, frames, period);
    let t = ticks_over(0, frames, period);
    let r = carried_over(0, frames, period);
    assert(t * period == period * t) by (nonlinear_arith);
    lemma_fundamental_div_mod_converse(k * period, period, t, r);
    assert(k * period == period * k) by (nonlinear_arith);
    lemma_fundamental_div_mod_converse(k * period, period, k, 0);
}

/// Two runs of frames of the same length, from the same start, run the
/// same number of ticks and leave the same time pending.
pub proof fn lemma_equal_time_equal_ticks(
    pending: int,
    first: Seq<int>,
    second: Seq<int>,
    period: int,
)
    requires
        0 < period,
        0 <= pending < period,
        all_nonnegative(first),
        all_nonnegative(second),
        total(first) == total(second),
    ensures
        ticks_over(pending, first, period) == ticks_over(pending, second, period),
        carried_over(pending, first, period) == carried_over(pending, second, period),
{
    lemma_time_is_conserved(pending, first, period);
    lemma_time_is_conserved(pending, second, period);
    let sum = pending + total(first);
    let t1 = ticks_over(pending, first, period);
    let t2 = ticks_over(pending, second, period);
    assert(t1 * period == period * t1 && t2 * period == period * t2) by (nonlinear_arith);
    lemma_fundamental_div_mod_converse(sum, period, t1, carried_over(pending, first, period));
    lemma_fundamental_div_mod_converse(sum, period, t2, carried_over(pending, second, period));
}

/// Turns frame time into ticks of a fixed length.
#[derive(Clone, Copy, Debug)]
pub struct Scheduler {
    period: u64,
    accumulator: u64,
}

impl Scheduler {
    /// The length of a tick, in nanoseconds.
    pub closed spec fn period(&self) -> int {
        self.period as int
    }

    /// The nanoseconds that have come in and not yet been simulated.
    pub closed spec fn pending(&self) -> int {
        self.accumulator as int
    }

    /// A tick has a length, and less than one tick is pending.
    pub open spec fn wf(&self) -> bool {
        0 <= self.pending() < self.period()
    }

    /// A scheduler for ticks of `tick_nanos` nanoseconds, with nothing
    /// pending. There is none for ticks of no length.
    pub fn new(tick_nanos: u64) -> (r: Option<Scheduler>)
        ensures
            r is Some <==> tick_nanos > 0,
            r matches Some(s) ==> s.wf() && s.period() == tick_nanos && s.pending() == 0,
    {
        if tick_nanos == 0 {
            None
        } else {
            Some(Scheduler { period: tick_nanos, accumulator: 0 })
        }
    }

    /// The length of a tick, in nanoseconds.
    pub fn tick_nanos(&self) -> (n: u64)
        ensures
            n == self.period(),
    {
        self.period
    }

    /// The nanoseconds that have come in and not yet been simulated.
    pub fn pending_nanos(&self) -> (n: u64)
        ensures
            n == self.pending(),
    {
        self.accumulator
    }

    /// Takes in a frame of `frame_nanos` nanoseconds and says how many
    /// ticks are now due. What is left of the frame stays pending.
    pub fn accrue(&mut self, frame_nanos: u64) -> (ticks: u64)
        requires
            old(self).wf(),
        ensures
            final(self).wf(),
            final(self).period() == old(self).period(),
            ticks == ticks_due(old(self).pending(), frame_nanos as int, old(self).period()),
            final(self).pending() == carried(
                old(self).pending(),
                frame_nanos as int,
                old(self).period(),
            ),
    {
        let sum: u128 = self.accumulator as u128 + frame_nanos as u128;
        let period: u128 = self.period as u128;
        proof {
            lemma_fundamental_div_mod(sum as int, period as int);
            lemma_mod_bound(sum as int, period as int);
            lemma_div_pos_is_pos(sum as int, period as int);
            let q = sum as int / period as int;
            assert(q <= frame_nanos) by (nonlinear_arith)
                requires
                    period * q <= sum,
                    sum <= period - 1 + frame_nanos,
                    0 < period,
                    0 <= q,
                    0 <= frame_nanos,
            ;
        }
        let ticks: u128 = sum / period;
        let rest: u128 = sum % period;
        self.accumulator = rest as u64;
        ticks as u64
    }
}

} // verus!

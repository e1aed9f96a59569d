//! The two 8-bit countdown timers, advanced once per elapsed 1/60 second of
//! wall-clock time.
//!
//! Wall time itself cannot be reasoned about, so the tick contract is
//! disjunctive: one call either leaves both counters alone or applies one
//! floor-at-zero decrement to each. Either way a counter never drops below
//! zero and never by more than one per call.

use vstd::prelude::*;

use std::time::{Duration, Instant};

verus! {

#[verifier::external_type_specification]
#[verifier::external_body]
pub struct ExInstant(Instant);

/// Relies on std::time::Instant::now: an opaque timestamp for the current
/// moment, about which nothing is promised.
#[verifier::external_body]
fn instant_now() -> Instant {
    Instant::now()
}

/// Relies on std::time::Instant::elapsed: the wall time since this instant,
/// about which nothing is promised.
#[verifier::external_body]
fn instant_elapsed(t: &Instant) -> Duration {
    t.elapsed()
}

/// Relies on std::time::Duration::as_nanos: the duration as a whole number
/// of nanoseconds, about which nothing is promised.
#[verifier::external_body]
fn duration_as_nanos(d: &Duration) -> u128 {
    d.as_nanos()
}

/// The counter values of a timer pair.
pub ghost struct TimersView {
    pub dt: u8,
    pub st: u8,
}

/// The delay and sound counters, with the timestamp of their last decrement.
#[derive(Debug)]
pub struct Timers {
    pub(crate) dt: u8,
    pub(crate) st: u8,
    last_tick: Instant,
}

/// One floor-at-zero decrement.
pub open spec fn dec1(v: u8) -> u8 {
    if v > 0 {
        (v - 1) as u8
    } else {
        0
    }
}

/// How one tick call may change the counters: either not at all (less than
/// 1/60 s had elapsed) or by one floor-at-zero decrement of each.
pub open spec fn tick_rel(pre: TimersView, post: TimersView) -> bool {
    ||| post == pre
    ||| post == (TimersView { dt: dec1(pre.dt), st: dec1(pre.st) })
}

impl View for Timers {
    type V = TimersView;

    closed spec fn view(&self) -> TimersView {
        TimersView { dt: self.dt, st: self.st }
    }
}

/// The period of the 60 Hz timers, in nanoseconds.
pub const HZ_60_NANOS: u128 = 1_000_000_000 / 60;

impl Timers {
    /// Both counters at zero, with the decrement reference point at "now".
    pub fn new() -> (t: Timers)
        ensures
            t@ == (TimersView { dt: 0, st: 0 }),
    {
        Timers { dt: 0, st: 0, last_tick: instant_now() }
    }

    /// If at least 1/60 s of wall time has elapsed since the last decrement,
    /// decrements each nonzero counter by 1 and resets the reference point;
    /// otherwise changes nothing. Called at most once per engine step.
    pub(crate) fn tick(&mut self)
        ensures
            tick_rel(old(self)@, final(self)@),
    {
        let elapsed = instant_elapsed(&self.last_tick);
        if duration_as_nanos(&elapsed) >= HZ_60_NANOS {
            if self.dt > 0 {
                self.dt = self.dt - 1;
            }
            if self.st > 0 {
                self.st = self.st - 1;
            }
            self.last_tick = instant_now();
        }
    }

    /// Sets the delay counter.
    pub(crate) fn set_delay(&mut self, v: u8)
        ensures
            final(self)@ == (TimersView { dt: v, st: old(self)@.st }),
    {
        self.dt = v;
    }

    /// Sets the sound counter.
    pub(crate) fn set_sound(&mut self, v: u8)
        ensures
            final(self)@ == (TimersView { dt: old(self)@.dt, st: v }),
    {
        self.st = v;
    }

    /// The delay counter as of the last tick.
    pub fn delay(&self) -> (r: u8)
        ensures
            r == self@.dt,
    {
        self.dt
    }

    /// The sound counter as of the last tick.
    pub fn sound(&self) -> (r: u8)
        ensures
            r == self@.st,
    {
        self.st
    }
}

impl Default for Timers {
    /// Equivalent to [`Timers::new`].
    fn default() -> (t: Timers)
        ensures
            t@ == (TimersView { dt: 0, st: 0 }),
    {
        Timers::new()
    }
}

/// Timer monotonicity: a tick never drops a counter below zero and never
/// takes more than one unit from it.
pub proof fn lemma_timer_monotonic(pre: TimersView, post: TimersView)
    requires
        tick_rel(pre, post),
    ensures
        post.dt <= pre.dt,
        pre.dt - post.dt <= 1,
        post.st <= pre.st,
        pre.st - post.st <= 1,
        pre.dt == 0 ==> post.dt == 0,
        pre.st == 0 ==> post.st == 0,
{
}

} // verus!

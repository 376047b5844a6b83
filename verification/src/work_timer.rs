//! The countdown of one work session.
//!
//! Time is measured in whole nanoseconds. An instant is a reading of a
//! monotonic clock, counted from an origin of the caller's choosing; only
//! differences between readings matter.

use vstd::prelude::*;

verus! {

/// `a - b`, or zero where `b` exceeds `a`.
pub open spec fn saturating_sub(a: int, b: int) -> int {
    if a >= b {
        a - b
    } else {
        0
    }
}

/// The sum of a sequence of time steps.
pub open spec fn total(deltas: Seq<u64>) -> int
    decreases deltas.len(),
{
    if deltas.len() == 0 {
        0
    } else {
        total(deltas.drop_last()) + deltas.last()
    }
}

/// A sum of time steps is never negative.
pub proof fn lemma_total_nonnegative(deltas: Seq<u64>)
    ensures
        total(deltas) >= 0,
    decreases deltas.len(),
{
    if deltas.len() > 0 {
        lemma_total_nonnegative(deltas.drop_last());
    }
}

/// A countdown as a mathematical value.
pub struct TimerState {
    /// The instant from which elapsed time is counted next; `None` while
    /// the countdown is paused.
    pub tick_origin: Option<u64>,
    /// The time left in the session.
    pub remaining: u64,
}

impl TimerState {
    /// The time left after `elapsed` more has passed: zero at the least.
    pub open spec fn left_after(self, elapsed: int) -> u64 {
        saturating_sub(self.remaining as int, elapsed) as u64
    }

    /// The countdown after a clock tick at `now`: a running one loses the
    /// time elapsed since its tick origin, down to zero at most, and counts
    /// from `now` on; a paused one is unchanged.
    pub open spec fn ticked(self, now: u64) -> TimerState {
        match self.tick_origin {
            Some(origin) => TimerState {
                tick_origin: Some(now),
                remaining: self.left_after(saturating_sub(now as int, origin as int)),
            },
            None => self,
        }
    }

    /// The countdown after the pause control was used at `now`: a running
    /// one commits the time elapsed since its tick origin and stops; a
    /// paused one starts counting from `now`.
    pub open spec fn toggled(self, now: u64) -> TimerState {
        match self.tick_origin {
            Some(origin) => TimerState {
                tick_origin: None,
                remaining: self.left_after(saturating_sub(now as int, origin as int)),
            },
            None => TimerState { tick_origin: Some(now), remaining: self.remaining },
        }
    }

    /// The countdown after one tick at the end of each of the given time
    /// steps, the first step starting at the tick origin.
    pub open spec fn run(self, deltas: Seq<u64>) -> TimerState
        decreases deltas.len(),
    {
        if deltas.len() == 0 {
            self
        } else {
            let before = self.run(deltas.drop_last());
            match before.tick_origin {
                Some(origin) => before.ticked((origin + deltas.last()) as u64),
                None => before,
            }
        }
    }

    /// What a run of ticks leaves depends on the total time elapsed alone:
    /// a running countdown loses the sum of the steps, down to zero at
    /// most, and its tick origin moves forward by that sum.
    pub proof fn lemma_run_total(self, deltas: Seq<u64>)
        requires
            self.tick_origin is Some,
            self.tick_origin.unwrap() + total(deltas) <= u64::MAX,
        ensures
            self.run(deltas) == (TimerState {
                tick_origin: Some((self.tick_origin.unwrap() + total(deltas)) as u64),
                remaining: self.left_after(total(deltas)),
            }),
        decreases deltas.len(),
    {
        if deltas.len() > 0 {
            lemma_total_nonnegative(deltas.drop_last());
            self.lemma_run_total(deltas.drop_last());
        }
    }

    /// However the length of a session is cut into time steps, ticking at
    /// the end of each step leaves exactly zero.
    pub proof fn lemma_run_reaches_zero(self, deltas: Seq<u64>)
        requires
            self.tick_origin is Some,
            self.tick_origin.unwrap() + total(deltas) <= u64::MAX,
            total(deltas) == self.remaining,
        ensures
            self.run(deltas).remaining == 0,
    {
        self.lemma_run_total(deltas);
    }

    /// Two ways of cutting the same elapsed time into steps leave the same
    /// countdown.
    pub proof fn lemma_run_rechunk(self, first: Seq<u64>, second: Seq<u64>)
        requires
            self.tick_origin is Some,
            self.tick_origin.unwrap() + total(first) <= u64::MAX,
            total(first) == total(second),
        ensures
            self.run(first) == self.run(second),
    {
        self.lemma_run_total(first);
        self.lemma_run_total(second);
    }

    /// Time spent paused is not counted: resuming never changes the time
    /// left, so a pause at the tick origin followed by a resume at any
    /// instant leaves the time left as it was.
    pub proof fn lemma_pause_resume(self, pause_at: u64, resume_at: u64)
        requires
            self.tick_origin is Some,
        ensures
            self.toggled(pause_at).toggled(resume_at).remaining == self.toggled(pause_at).remaining,
            self.toggled(pause_at).toggled(resume_at).tick_origin == Some(resume_at),
            self.tick_origin == Some(pause_at) ==> self.toggled(pause_at).toggled(
                resume_at,
            ).remaining == self.remaining,
    {
    }

    /// The time left never grows and never falls below zero, a tick
    /// neither pauses nor resumes, and the pause control always does one
    /// of the two.
    pub proof fn lemma_remaining_monotone(self, now: u64)
        ensures
            0 <= self.ticked(now).remaining <= self.remaining,
            0 <= self.toggled(now).remaining <= self.remaining,
            self.ticked(now).tick_origin is None <==> self.tick_origin is None,
            self.toggled(now).tick_origin is None <==> self.tick_origin is Some,
    {
    }
}

/// A countdown that can be paused. It is paused exactly when it has no
/// tick origin.
#[derive(Debug, Clone, Copy)]
pub struct WorkTimer {
    last_tick: Option<u64>,
    work_duration_remaining: u64,
}

impl View for WorkTimer {
    type V = TimerState;

    closed spec fn view(&self) -> TimerState {
        TimerState { tick_origin: self.last_tick, remaining: self.work_duration_remaining }
    }
}

impl WorkTimer {
    /// A running timer for a session of `work_duration`, counting from `now`.
    pub fn new(work_duration: u64, now: u64) -> (timer: WorkTimer)
        ensures
            timer@ == (TimerState { tick_origin: Some(now), remaining: work_duration }),
    {
        WorkTimer { last_tick: Some(now), work_duration_remaining: work_duration }
    }

    /// The time left in the session.
    pub fn duration_remaning(&self) -> (remaining: u64)
        ensures
            remaining == self@.remaining,
    {
        self.work_duration_remaining
    }

    /// Whether the countdown is stopped.
    pub fn is_paused(&self) -> (paused: bool)
        ensures
            paused == (self@.tick_origin is None),
    {
        self.last_tick.is_none()
    }

    /// Pauses a running timer, resumes a paused one.
    pub fn toggle_pause(&mut self, now: u64)
        ensures
            final(self)@ == old(self)@.toggled(now),
    {
        self.last_tick = match self.last_tick {
            Some(tick) => {
                let elapsed = now.saturating_sub(tick);
                self.work_duration_remaining = self.work_duration_remaining.saturating_sub(elapsed);
                None
            },
            None => Some(now),
        }
    }

    /// Advances the countdown to the clock reading `now`.
    pub fn on_tick(&mut self, now: u64)
        ensures
            final(self)@ == old(self)@.ticked(now),
    {
        if let Some(tick) = self.last_tick {
            let elapsed = now.saturating_sub(tick);
            self.work_duration_remaining = self.work_duration_remaining.saturating_sub(elapsed);
            self.last_tick = Some(now);
        }
    }
}

} // verus!

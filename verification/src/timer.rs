//! Countdown timers driven by each tick's elapsed time, in milliseconds: a
//! one-shot mode for the weapon reload and a repeating mode for periodic
//! work.

use vstd::prelude::*;

verus! {

#[derive(Clone, Copy, PartialEq, Eq, Structural, Debug)]
pub enum TimerMode {
    /// Runs to its duration once and then stays finished until reset.
    Once,
    /// Wraps around each time the duration is reached.
    Repeating,
}

/// A timer advanced by [`Timer::tick`] once per simulation tick.
#[derive(Clone, Copy, PartialEq, Eq, Structural, Debug)]
pub struct Timer {
    pub duration_ms: u32,
    pub elapsed_ms: u32,
    pub mode: TimerMode,
    pub just_finished: bool,
}

/// The timer after advancing it by `delta` milliseconds.
pub open spec fn tick_spec(t: Timer, delta: int) -> Timer {
    let total = t.elapsed_ms as int + delta;
    match t.mode {
        TimerMode::Once => Timer {
            elapsed_ms: if total >= t.duration_ms as int {
                t.duration_ms
            } else {
                total as u32
            },
            just_finished: t.elapsed_ms < t.duration_ms && total >= t.duration_ms as int,
            ..t
        },
        TimerMode::Repeating => {
            if t.duration_ms == 0 {
                Timer { elapsed_ms: 0, just_finished: true, ..t }
            } else {
                Timer {
                    elapsed_ms: (total % (t.duration_ms as int)) as u32,
                    just_finished: total >= t.duration_ms as int,
                    ..t
                }
            }
        },
    }
}

/// Whether the timer counts as finished: a one-shot timer once it has
/// reached its duration, a repeating timer in the tick it wrapped.
pub open spec fn finished_spec(t: Timer) -> bool {
    match t.mode {
        TimerMode::Once => t.elapsed_ms >= t.duration_ms,
        TimerMode::Repeating => t.just_finished,
    }
}

impl Timer {
    pub fn new(duration_ms: u32, mode: TimerMode) -> (r: Timer)
        ensures
            r == (Timer { duration_ms, elapsed_ms: 0, mode, just_finished: false }),
    {
        Timer { duration_ms, elapsed_ms: 0, mode, just_finished: false }
    }

    /// Advance the timer by the tick's elapsed milliseconds.
    pub fn tick(&mut self, delta_ms: u32)
        ensures
            *final (self) == tick_spec(*old(self), delta_ms as int),
    {
        let total: u64 = self.elapsed_ms as u64 + delta_ms as u64;
        match self.mode {
            TimerMode::Once => {
                self.just_finished = self.elapsed_ms < self.duration_ms && total
                    >= self.duration_ms as u64;
                self.elapsed_ms = if total >= self.duration_ms as u64 {
                    self.duration_ms
                } else {
                    total as u32
                };
            },
            TimerMode::Repeating => {
                if self.duration_ms == 0 {
                    self.elapsed_ms = 0;
                    self.just_finished = true;
                } else {
                    self.just_finished = total >= self.duration_ms as u64;
                    self.elapsed_ms = (total % (self.duration_ms as u64)) as u32;
                }
            },
        }
    }

    pub fn finished(&self) -> (r: bool)
        ensures
            r == finished_spec(*self),
    {
        match self.mode {
            TimerMode::Once => self.elapsed_ms >= self.duration_ms,
            TimerMode::Repeating => self.just_finished,
        }
    }

    pub fn just_finished(&self) -> (r: bool)
        ensures
            r == self.just_finished,
    {
        self.just_finished
    }

    /// Start the timer over.
    pub fn reset(&mut self)
        ensures
            *final (self) == (Timer { elapsed_ms: 0, just_finished: false, ..*old(self) }),
    {
        self.elapsed_ms = 0;
        self.just_finished = false;
    }
}

} // verus!

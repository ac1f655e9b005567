//! Countdown timers measured in whole microseconds.

use vstd::prelude::*;

verus! {

/// Whether a timer stops after finishing once or starts over.
#[derive(Clone, Copy, Debug, PartialEq, Eq, Structural)]
pub enum TimerMode {
    Once,
    Repeating,
}

/// A countdown of `duration` microseconds that has run for `elapsed`.
#[derive(Clone, Copy, Debug, PartialEq, Eq, Structural)]
pub struct Timer {
    pub duration: u64,
    pub elapsed: u64,
    pub mode: TimerMode,
    pub finished: bool,
}

/// `a + b`, held at `u64::MAX`.
pub open spec fn sat_add(a: u64, b: u64) -> u64 {
    if a + b > u64::MAX {
        u64::MAX
    } else {
        (a + b) as u64
    }
}

impl Timer {
    /// The timer after `delta` more microseconds, and whether it finished
    /// during them. A finished one-shot timer no longer moves; a repeating
    /// timer keeps the remainder past its duration.
    pub open spec fn advanced(self, delta: u64) -> (Timer, bool) {
        if self.mode == TimerMode::Once && self.finished {
            (self, false)
        } else {
            let e = sat_add(self.elapsed, delta);
            if e >= self.duration {
                let rest = if self.mode == TimerMode::Once {
                    self.duration
                } else if self.duration == 0 {
                    0
                } else {
                    (e % self.duration) as u64
                };
                (Timer { elapsed: rest, finished: true, ..self }, true)
            } else {
                (Timer { elapsed: e, finished: false, ..self }, false)
            }
        }
    }

    /// A fresh timer of `duration` microseconds.
    pub fn new(duration: u64, mode: TimerMode) -> (t: Timer)
        ensures
            t == (Timer { duration, elapsed: 0, mode, finished: false }),
    {
        Timer { duration, elapsed: 0, mode, finished: false }
    }

    /// Advances the timer by `delta` microseconds; true when it finished
    /// during this step.
    pub fn tick(&mut self, delta: u64) -> (just_finished: bool)
        ensures
            (*final(self), just_finished) == old(self).advanced(delta),
    {
        if self.mode == TimerMode::Once && self.finished {
            return false;
        }
        let e = self.elapsed.saturating_add(delta);
        if e >= self.duration {
            self.elapsed = if self.mode == TimerMode::Once {
                self.duration
            } else if self.duration == 0 {
                0
            } else {
                e % self.duration
            };
            self.finished = true;
            true
        } else {
            self.elapsed = e;
            self.finished = false;
            false
        }
    }
}

} // verus!

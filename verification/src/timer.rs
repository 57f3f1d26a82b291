//! A one-shot countdown measured in milliseconds.

use vstd::prelude::*;

verus! {

/// A timer that runs once: it counts elapsed time up to its duration, then
/// stays finished until it is reset.
#[derive(Debug, Clone, Copy, PartialEq, Eq, Structural)]
pub struct Timer {
    /// Time after which the timer is finished.
    pub duration: u64,
    /// Time counted so far; never more than `duration` once finished.
    pub elapsed: u64,
    /// Whether the duration has been reached since the last reset.
    pub finished: bool,
    /// Whether the most recent tick was the one that finished the timer.
    pub just_finished: bool,
}

impl Timer {
    /// The timer as it is after `delta` more milliseconds.
    pub open spec fn ticked(self, delta: u64) -> Timer {
        if self.finished {
            Timer { just_finished: false, ..self }
        } else {
            let total: u64 = if self.elapsed + delta > u64::MAX {
                u64::MAX
            } else {
                (self.elapsed + delta) as u64
            };
            if total >= self.duration {
                Timer { duration: self.duration, elapsed: self.duration, finished: true, just_finished: true }
            } else {
                Timer { duration: self.duration, elapsed: total, finished: false, just_finished: false }
            }
        }
    }

    /// A timer of the given duration that has not counted anything yet.
    pub open spec fn new_spec(duration: u64) -> Timer {
        Timer { duration, elapsed: 0, finished: false, just_finished: false }
    }

    /// A fresh timer of the given duration.
    pub fn new(duration: u64) -> (t: Timer)
        ensures
            t == Timer::new_spec(duration),
    {
        Timer { duration, elapsed: 0, finished: false, just_finished: false }
    }

    /// Advances the timer by `delta` milliseconds.
    pub fn tick(&mut self, delta: u64)
        ensures
            *final(self) == old(self).ticked(delta),
    {
        if self.finished {
            self.just_finished = false;
            return ;
        }
        let total: u64 = if delta > u64::MAX - self.elapsed {
            u64::MAX
        } else {
            self.elapsed + delta
        };
        if total >= self.duration {
            self.elapsed = self.duration;
            self.finished = true;
            self.just_finished = true;
        } else {
            self.elapsed = total;
            self.just_finished = false;
        }
    }

    /// Whether the duration has been reached.
    pub fn finished(&self) -> (b: bool)
        ensures
            b == self.finished,
    {
        self.finished
    }

    /// Whether the last tick finished the timer.
    pub fn just_finished(&self) -> (b: bool)
        ensures
            b == self.just_finished,
    {
        self.just_finished
    }

    /// Changes the duration; elapsed time and the finished flags stay.
    pub fn set_duration(&mut self, duration: u64)
        ensures
            *final(self) == (Timer { duration, ..*old(self) }),
    {
        self.duration = duration;
    }

    /// Starts counting from zero again.
    pub fn reset(&mut self)
        ensures
            *final(self) == Timer::new_spec(old(self).duration),
    {
        self.elapsed = 0;
        self.finished = false;
        self.just_finished = false;
    }
}

} // verus!

//! A countdown that keeps new segments from following one another too
//! closely.

use vstd::prelude::*;

verus! {

/// A countdown from `duration` to zero, in microseconds. It is finished
/// when nothing remains.
#[derive(Clone, Copy, Debug, PartialEq, Eq, Structural)]
pub struct Cooldown {
    pub duration: u64,
    pub remaining: u64,
}

impl Cooldown {
    /// A countdown of `duration` microseconds with all of it still to run.
    pub open spec fn started(duration: u64) -> Cooldown {
        Cooldown { duration, remaining: duration }
    }

    /// This countdown after `elapsed` more microseconds. It stops at zero.
    pub open spec fn advanced(self, elapsed: u64) -> Cooldown {
        Cooldown {
            duration: self.duration,
            remaining: if elapsed >= self.remaining {
                0
            } else {
                (self.remaining - elapsed) as u64
            },
        }
    }

    /// Nothing remains of this countdown.
    pub open spec fn finished(self) -> bool {
        self.remaining == 0
    }

    /// This countdown set back to its full duration.
    pub open spec fn restarted(self) -> Cooldown {
        Cooldown { duration: self.duration, remaining: self.duration }
    }

    /// Starts a countdown of `duration` microseconds.
    pub fn new(duration: u64) -> (cooldown: Self)
        ensures
            cooldown == Cooldown::started(duration),
    {
        Cooldown { duration, remaining: duration }
    }

    /// Lets `elapsed` microseconds pass.
    pub fn tick(&mut self, elapsed: u64)
        ensures
            *final(self) == old(self).advanced(elapsed),
    {
        if elapsed >= self.remaining {
            self.remaining = 0;
        } else {
            self.remaining = self.remaining - elapsed;
        }
    }

    /// Whether the countdown has run out.
    pub fn is_finished(&self) -> (finished: bool)
        ensures
            finished == self.finished(),
    {
        self.remaining == 0
    }

    /// Sets the countdown back to its full duration.
    pub fn reset(&mut self)
        ensures
            *final(self) == old(self).restarted(),
    {
        self.remaining = self.duration;
    }
}

} // verus!

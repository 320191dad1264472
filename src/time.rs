//! The frame clock: how long the game has run and how long the last frame took.
use vstd::prelude::*;

verus! {

/// Time since the clock started and the length of the last frame, in nanoseconds.
pub struct Time {
    now: u64,
    delta: u64,
}

impl Time {
    /// Nanoseconds since the clock started.
    pub closed spec fn spec_now(&self) -> nat {
        self.now as nat
    }

    /// Nanoseconds the last frame took.
    pub closed spec fn spec_delta(&self) -> nat {
        self.delta as nat
    }

    /// A clock at its start, before any frame.
    pub fn new() -> (r: Time)
        ensures
            r.spec_now() == 0,
            r.spec_delta() == 0,
    {
        Time { now: 0, delta: 0 }
    }

    /// Records a frame that took `elapsed` nanoseconds.
    pub fn advance(&mut self, elapsed: u64)
        requires
            old(self).spec_now() + elapsed <= u64::MAX,
        ensures
            final(self).spec_now() == old(self).spec_now() + elapsed,
            final(self).spec_delta() == elapsed,
    {
        self.now = self.now + elapsed;
        self.delta = elapsed;
    }

    /// Nanoseconds since the clock started.
    pub fn now(&self) -> (r: u64)
        ensures
            r == self.spec_now(),
    {
        self.now
    }

    /// Nanoseconds the last frame took.
    pub fn delta(&self) -> (r: u64)
        ensures
            r == self.spec_delta(),
    {
        self.delta
    }
}

} // verus!

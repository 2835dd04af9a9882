//! A clock for tests: it stands still until told to move.
use vstd::prelude::*;

verus! {

/// A source of the current time, in milliseconds.
pub trait TimeProvider {
    /// The current time.
    fn now(&self) -> u64;
}

/// A clock that only moves when told to.
#[derive(Debug)]
pub struct ControllableTimeProvider {
    current_time: u64,
}

impl ControllableTimeProvider {
    /// The time the clock shows.
    pub closed spec fn time(&self) -> u64 {
        self.current_time
    }

    /// A clock at time zero.
    pub fn new() -> (c: Self)
        ensures
            c.time() == 0,
    {
        Self { current_time: 0 }
    }

    /// Moves the clock forward by `duration_ms`.
    pub fn advance(&mut self, duration_ms: u64)
        requires
            old(self).time() + duration_ms <= u64::MAX,
        ensures
            final(self).time() == old(self).time() + duration_ms,
    {
        self.current_time = self.current_time + duration_ms;
    }

    /// Sets the clock to `time_ms`.
    pub fn set_time(&mut self, time_ms: u64)
        ensures
            final(self).time() == time_ms,
    {
        self.current_time = time_ms;
    }
}

impl TimeProvider for ControllableTimeProvider {
    /// The time the clock shows.
    fn now(&self) -> (t: u64)
        ensures
            t == self.time(),
    {
        self.current_time
    }
}

} // verus!

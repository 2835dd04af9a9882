//! The simple key handling of the terminal front end: commands closer
//! together than a cooldown are dropped.
use vstd::prelude::*;

verus! {

/// Default cooldown between two commands, in milliseconds.
pub const DEFAULT_COOLDOWN_MS: u64 = 100;

/// Command count and cooldown.
#[derive(Debug)]
pub struct CliInputHandler {
    last_input_time_ms: Option<u64>,
    pub input_count: u64,
    input_cooldown_ms: u64,
}

impl CliInputHandler {
    /// When the last command was taken.
    pub closed spec fn last_input(&self) -> Option<u64> {
        self.last_input_time_ms
    }

    /// Number of commands taken.
    pub closed spec fn count(&self) -> u64 {
        self.input_count
    }

    /// The cooldown.
    pub closed spec fn cooldown(&self) -> u64 {
        self.input_cooldown_ms
    }

    /// No command taken; a cooldown of 100 ms.
    pub fn new() -> (h: Self)
        ensures
            h.last_input() is None,
            h.count() == 0,
            h.cooldown() == DEFAULT_COOLDOWN_MS,
    {
        Self { last_input_time_ms: None, input_count: 0, input_cooldown_ms: DEFAULT_COOLDOWN_MS }
    }

    /// Whether a command read at `now_ms` is taken: not when it comes less
    /// than the cooldown after the last command taken.  A taken command is
    /// counted and timed.
    pub fn accept_input(&mut self, now_ms: u64) -> (taken: bool)
        requires
            old(self).count() < u64::MAX,
        ensures
            taken == match old(self).last_input() {
                Some(t) => !(now_ms >= t && now_ms - t < old(self).cooldown()),
                None => true,
            },
            taken ==> final(self).count() == old(self).count() + 1 && final(self).last_input() == Some(now_ms),
            !taken ==> final(self).count() == old(self).count() && final(self).last_input() == old(self).last_input(),
            final(self).cooldown() == old(self).cooldown(),
    {
        if let Some(last_time) = self.last_input_time_ms {
            if now_ms >= last_time && now_ms - last_time < self.input_cooldown_ms {
                return false;
            }
        }
        self.input_count = self.input_count + 1;
        self.last_input_time_ms = Some(now_ms);
        true
    }

    /// Forgets the count and the last command.
    pub fn reset_stats(&mut self)
        ensures
            final(self).count() == 0,
            final(self).last_input() is None,
            final(self).cooldown() == old(self).cooldown(),
    {
        self.input_count = 0;
        self.last_input_time_ms = None;
    }

    /// Sets the cooldown.
    pub fn set_cooldown_ms(&mut self, cooldown_ms: u64)
        ensures
            final(self).cooldown() == cooldown_ms,
            final(self).count() == old(self).count(),
            final(self).last_input() == old(self).last_input(),
    {
        self.input_cooldown_ms = cooldown_ms;
    }
}

impl Default for CliInputHandler {
    /// The handler `new` makes.
    fn default() -> (h: Self)
        ensures
            h.last_input() is None,
            h.count() == 0,
            h.cooldown() == DEFAULT_COOLDOWN_MS,
    {
        Self::new()
    }
}

} // verus!

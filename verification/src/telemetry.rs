//! Counters of what the offline policy refused.
use vstd::prelude::*;

verus! {

/// Counts the network requests that the offline policy blocked.
#[derive(Debug)]
pub struct Telemetry {
    blocked_network_attempts: u64,
}

/// The counter after one more blocked attempt; like an atomic `fetch_add`,
/// it wraps around at `u64::MAX`.
pub open spec fn count_one_more(n: u64) -> u64 {
    if n == u64::MAX {
        0
    } else {
        (n + 1) as u64
    }
}

impl View for Telemetry {
    type V = u64;

    closed spec fn view(&self) -> u64 {
        self.blocked_network_attempts
    }
}

impl Default for Telemetry {
    fn default() -> (t: Self)
        ensures
            t@ == 0,
    {
        Telemetry { blocked_network_attempts: 0 }
    }
}

impl Telemetry {
    pub fn increment_blocked_network_attempts(&mut self)
        ensures
            final(self)@ == count_one_more(old(self)@),
    {
        self.blocked_network_attempts = self.blocked_network_attempts.wrapping_add(1);
    }

    pub fn blocked_network_attempts(&self) -> (n: u64)
        ensures
            n == self@,
    {
        self.blocked_network_attempts
    }
}

} // verus!

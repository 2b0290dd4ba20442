//! A pluggable clock: the control cycle reads time and performs its
//! blocking waits through this interface, so a harness can substitute a
//! virtual clock.

use vstd::prelude::*;

verus! {

/// A source of monotonic time and blocking delays, in nanoseconds.
pub trait Clock {
    /// The current reading, in nanoseconds from an arbitrary origin.
    fn now_ns(&mut self) -> u64;

    /// Blocks for the given span.
    fn wait_ns(&mut self, duration_ns: u64);
}

/// A deterministic clock for simulation: waiting advances the reading.
#[derive(Debug, Clone, Copy, PartialEq, Eq, Structural)]
pub struct VirtualClock {
    pub reading_ns: u64,
}

impl VirtualClock {
    /// A clock standing at the given reading.
    pub fn new(start_ns: u64) -> (r: VirtualClock)
        ensures
            r.reading_ns == start_ns,
    {
        VirtualClock { reading_ns: start_ns }
    }
}

impl Clock for VirtualClock {
    fn now_ns(&mut self) -> u64 {
        self.reading_ns
    }

    fn wait_ns(&mut self, duration_ns: u64) {
        if duration_ns > u64::MAX - self.reading_ns {
            self.reading_ns = u64::MAX;
        } else {
            self.reading_ns = self.reading_ns + duration_ns;
        }
    }
}

} // verus!

//! The time, real or fixed.

use vstd::prelude::*;

verus! {

/// Where the time is read from.
#[derive(Clone, Copy, Debug, PartialEq, Eq, Structural)]
pub enum Clock {
    /// The machine's clock.
    System,
    /// A time that stands still.
    Fixed(u64),
}

impl Clock {
    /// The clock can show this time.
    pub open spec fn shows(self, now: u64) -> bool {
        match self {
            Clock::System => true,
            Clock::Fixed(t) => now == t,
        }
    }

    /// Reads the clock, in seconds since the epoch.
    pub fn read(&self) -> (now: u64)
        ensures
            self.shows(now),
    {
        match self {
            Clock::System => system_clock(),
            Clock::Fixed(t) => *t,
        }
    }
}

/// Reads `std::time::SystemTime::now` as whole seconds since the epoch, zero
/// for a clock set before it. Nothing is promised of the time.
#[verifier::external_body]
fn system_clock() -> (r: u64) {
    std::time::SystemTime::now().duration_since(std::time::UNIX_EPOCH).unwrap_or_default().as_secs()
}

} // verus!

//! Process-wide counters of connections and requests.

use vstd::prelude::*;

verus! {

/// A counter of events (open connections, requests in flight, ...).
pub struct GlobalCounter {
    value: i64,
}

impl View for GlobalCounter {
    type V = int;

    closed spec fn view(&self) -> int {
        self.value as int
    }
}

impl GlobalCounter {
    /// A counter that starts at zero.
    pub fn new() -> (c: Self)
        ensures
            c@ == 0,
    {
        GlobalCounter { value: 0 }
    }

    /// The current count.
    pub fn get(&self) -> (v: i64)
        ensures
            v == self@,
    {
        self.value
    }

    /// Adds one to the count.
    pub fn incr(&mut self)
        requires
            old(self)@ < i64::MAX,
        ensures
            final(self)@ == old(self)@ + 1,
    {
        self.value = self.value + 1;
    }

    /// Updates the count for a finished event; like `incr`, this adds one.
    pub fn decr(&mut self)
        requires
            old(self)@ < i64::MAX,
        ensures
            final(self)@ == old(self)@ + 1,
    {
        self.value = self.value + 1;
    }

    /// Sets the count back to zero.
    pub fn reset(&mut self)
        ensures
            final(self)@ == 0,
    {
        self.value = 0;
    }
}

} // verus!

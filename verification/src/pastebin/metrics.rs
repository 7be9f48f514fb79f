//! Process-wide service counters.

use vstd::prelude::*;

use crate::counter;

verus! {

/// Counters for the service.
#[derive(Debug)]
pub struct Metrics {
    served: u64,
}

impl Default for Metrics {
    fn default() -> (m: Self)
        ensures
            m.served() == 0,
    {
        Metrics { served: 0 }
    }
}

impl Metrics {
    /// The fetches counted so far.
    pub closed spec fn served(&self) -> u64 {
        self.served
    }

    /// Counts one successfully served paste fetch.
    pub fn record_served(&mut self)
        ensures
            final(self).served() == counter::bumped(old(self).served()),
    {
        self.served = counter::bump(self.served);
    }

    /// Total paste fetches served since startup.
    pub fn pastes_served(&self) -> (n: u64)
        ensures
            n == self.served(),
    {
        self.served
    }
}

/// Each event counts once, and the total is what was counted.
pub proof fn events_count_once(m: &mut Metrics, n: u64)
    requires
        call_ensures(Metrics::record_served, (m,), ()),
        call_ensures(Metrics::pastes_served, (final(m),), n),
        old(m).served() < u64::MAX,
    ensures
        n == old(m).served() + 1,
{
}

} // verus!

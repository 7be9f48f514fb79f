//! Process-wide service counters.

use vstd::prelude::*;

use crate::counter;

verus! {

/// Counters for the service.
#[derive(Debug)]
pub struct Metrics {
    redirects: u64,
}

impl Default for Metrics {
    fn default() -> (m: Self)
        ensures
            m.redirects() == 0,
    {
        Metrics { redirects: 0 }
    }
}

impl Metrics {
    /// The redirects counted so far.
    pub closed spec fn redirects(&self) -> u64 {
        self.redirects
    }

    /// Counts one successfully served redirect.
    pub fn record_redirect(&mut self)
        ensures
            final(self).redirects() == counter::bumped(old(self).redirects()),
    {
        self.redirects = counter::bump(self.redirects);
    }

    /// Total redirects served since startup.
    pub fn redirects_served(&self) -> (n: u64)
        ensures
            n == self.redirects(),
    {
        self.redirects
    }
}

/// Each event counts once, and the total is what was counted.
pub proof fn events_count_once(m: &mut Metrics, n: u64)
    requires
        call_ensures(Metrics::record_redirect, (m,), ()),
        call_ensures(Metrics::redirects_served, (final(m),), n),
        old(m).redirects() < u64::MAX,
    ensures
        n == old(m).redirects() + 1,
{
}

} // verus!

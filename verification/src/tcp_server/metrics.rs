//! Process-wide server counters.
//!
//! Connections that are live right now are not counted here: the registry owns
//! that set.

use vstd::prelude::*;

use crate::counter;

verus! {

/// Monotonic counters.
#[derive(Debug)]
pub struct Metrics {
    connections: u64,
    requests: u64,
}

impl Default for Metrics {
    fn default() -> (m: Self)
        ensures
            m.connections() == 0,
            m.requests() == 0,
    {
        Metrics { connections: 0, requests: 0 }
    }
}

impl Metrics {
    /// The connections counted so far.
    pub closed spec fn connections(&self) -> u64 {
        self.connections
    }

    /// The requests counted so far.
    pub closed spec fn requests(&self) -> u64 {
        self.requests
    }

    /// Counts one accepted connection.
    pub fn on_connect(&mut self)
        ensures
            final(self).connections() == counter::bumped(old(self).connections()),
            final(self).requests() == old(self).requests(),
    {
        self.connections = counter::bump(self.connections);
    }

    /// Counts one served request.
    pub fn on_request(&mut self)
        ensures
            final(self).requests() == counter::bumped(old(self).requests()),
            final(self).connections() == old(self).connections(),
    {
        self.requests = counter::bump(self.requests);
    }

    /// Total connections accepted since startup.
    pub fn connections_total(&self) -> (n: u64)
        ensures
            n == self.connections(),
    {
        self.connections
    }

    /// Total requests served since startup.
    pub fn requests_total(&self) -> (n: u64)
        ensures
            n == self.requests(),
    {
        self.requests
    }
}

/// Connections and requests are counted apart, one by one, and shown as counted.
pub proof fn events_are_counted_apart(m: &mut Metrics, k: &mut Metrics, c: u64, r: u64)
    requires
        *old(k) == *old(m),
        call_ensures(Metrics::on_connect, (m,), ()),
        call_ensures(Metrics::on_request, (k,), ()),
        call_ensures(Metrics::connections_total, (final(m),), c),
        call_ensures(Metrics::requests_total, (final(k),), r),
        old(m).connections() < u64::MAX,
        old(m).requests() < u64::MAX,
    ensures
        c == old(m).connections() + 1,
        r == old(m).requests() + 1,
        final(m).requests() == old(m).requests(),
        final(k).connections() == old(m).connections(),
{
}

} // verus!

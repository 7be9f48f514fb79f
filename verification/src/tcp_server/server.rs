//! The accept loop: bounded concurrency, connection numbers, graceful shutdown.
//!
//! Every live connection holds one permit. [`AcceptLoop`] decides what the loop
//! does next; the task that owns the listener carries it out. A permit is taken
//! before a connection is accepted, so that at capacity nothing is accepted, and
//! shutdown is complete once all permits can be taken back.

use vstd::prelude::*;

use crate::counter;

verus! {

/// How long the loop rests after a failed accept, so that a persistent error does
/// not keep it busy.
pub const BACKOFF_MILLIS: u64 = 50;

/// Where the accept loop stands.
#[derive(Debug, Clone, Copy, PartialEq, Eq, Structural)]
pub enum Phase {
    /// It holds no permit.
    Free,
    /// It holds a permit for the next connection.
    Permitted,
    /// It accepts nothing any more.
    Stopped,
}

/// What the accept loop does next.
#[derive(Debug, Clone, Copy, PartialEq, Eq, Structural)]
pub enum LoopAction {
    /// Wait for a permit, or for shutdown.
    Acquire,
    /// Wait for a connection, or for shutdown.
    Accept,
    /// Wait for this many permits, within the grace period, and end.
    Drain { permits: u32 },
}

/// What waiting for a connection brought.
#[derive(Debug, Clone, Copy, PartialEq, Eq, Structural)]
pub enum Accepted {
    Connection,
    Failed,
    Shutdown,
}

/// What follows a wait for a connection.
#[derive(Debug, Clone, Copy, PartialEq, Eq, Structural)]
pub enum AfterAccept {
    /// Start the connection task under this number; the permit goes with it.
    Spawn { id: u64 },
    /// Give the permit back and rest for so many milliseconds.
    Backoff { millis: u64 },
    /// Give the permit back and stop.
    Stop,
}

/// The state of the accept loop.
pub struct LoopState {
    pub phase: Phase,
    pub next_id: u64,
    pub max_connections: nat,
}

/// The permits that stand for all connections. More cannot be asked for at once
/// than fit 32 bits.
pub open spec fn all_permits(max_connections: nat) -> nat {
    if max_connections <= u32::MAX {
        max_connections
    } else {
        u32::MAX as nat
    }
}

/// What the loop does next, and its state from then on.
pub open spec fn next_of(s: LoopState, shutdown: bool) -> (LoopState, LoopAction) {
    let drain = LoopAction::Drain { permits: all_permits(s.max_connections) as u32 };
    match s.phase {
        Phase::Free => if shutdown {
            (LoopState { phase: Phase::Stopped, ..s }, drain)
        } else {
            (s, LoopAction::Acquire)
        },
        Phase::Permitted => (s, LoopAction::Accept),
        Phase::Stopped => (s, drain),
    }
}

/// The state after a wait for a permit.
pub open spec fn permit_of(s: LoopState, acquired: bool) -> LoopState {
    LoopState {
        phase: if acquired {
            Phase::Permitted
        } else {
            Phase::Stopped
        },
        ..s
    }
}

/// What follows a wait for a connection, and the state from then on.
pub open spec fn accepted_of(s: LoopState, outcome: Accepted) -> (LoopState, AfterAccept) {
    match outcome {
        Accepted::Connection => (
            LoopState { phase: Phase::Free, next_id: counter::bumped(s.next_id), ..s },
            AfterAccept::Spawn { id: s.next_id },
        ),
        Accepted::Failed => (
            LoopState { phase: Phase::Free, ..s },
            AfterAccept::Backoff { millis: BACKOFF_MILLIS },
        ),
        Accepted::Shutdown => (LoopState { phase: Phase::Stopped, ..s }, AfterAccept::Stop),
    }
}

/// Decides the steps of the accept loop.
#[derive(Debug)]
pub struct AcceptLoop {
    phase: Phase,
    next_id: u64,
    max_connections: usize,
}

impl View for AcceptLoop {
    type V = LoopState;

    closed spec fn view(&self) -> LoopState {
        LoopState {
            phase: self.phase,
            next_id: self.next_id,
            max_connections: self.max_connections as nat,
        }
    }
}

impl AcceptLoop {
    /// A loop that has accepted nothing yet.
    pub fn new(max_connections: usize) -> (l: Self)
        ensures
            l@ == (LoopState {
                phase: Phase::Free,
                next_id: 1,
                max_connections: max_connections as nat,
            }),
    {
        AcceptLoop { phase: Phase::Free, next_id: 1, max_connections }
    }

    /// Decides what to do next.
    pub fn next(&mut self, shutdown: bool) -> (action: LoopAction)
        ensures
            final(self)@ == next_of(old(self)@, shutdown).0,
            action == next_of(old(self)@, shutdown).1,
    {
        if self.phase == Phase::Permitted {
            return LoopAction::Accept;
        }
        if self.phase == Phase::Free {
            if !shutdown {
                return LoopAction::Acquire;
            }
            self.phase = Phase::Stopped;
        }
        let permits: u32 = if self.max_connections <= u32::MAX as usize {
            self.max_connections as u32
        } else {
            u32::MAX
        };
        LoopAction::Drain { permits }
    }

    /// Takes in the end of a wait for a permit; without one the loop stops.
    pub fn on_permit(&mut self, acquired: bool)
        ensures
            final(self)@ == permit_of(old(self)@, acquired),
    {
        self.phase = if acquired {
            Phase::Permitted
        } else {
            Phase::Stopped
        };
    }

    /// Takes in the end of a wait for a connection.
    pub fn on_accept(&mut self, outcome: Accepted) -> (after: AfterAccept)
        ensures
            final(self)@ == accepted_of(old(self)@, outcome).0,
            after == accepted_of(old(self)@, outcome).1,
    {
        match outcome {
            Accepted::Connection => {
                let id: u64 = self.next_id;
                self.next_id = counter::bump(id);
                self.phase = Phase::Free;
                AfterAccept::Spawn { id }
            },
            Accepted::Failed => {
                self.phase = Phase::Free;
                AfterAccept::Backoff { millis: BACKOFF_MILLIS }
            },
            Accepted::Shutdown => {
                self.phase = Phase::Stopped;
                AfterAccept::Stop
            },
        }
    }
}

/// The number of the connection accepted after `k` others.
pub open spec fn nth_id(k: nat) -> u64
    decreases k,
{
    if k == 0 {
        1
    } else {
        counter::bumped(nth_id((k - 1) as nat))
    }
}

/// The numbers handed out over a run of accept outcomes.
pub open spec fn ids_of(s: LoopState, outcomes: Seq<Accepted>) -> Seq<u64>
    decreases outcomes.len(),
{
    if outcomes.len() == 0 {
        Seq::empty()
    } else {
        let (t, after) = accepted_of(s, outcomes[0]);
        let rest = ids_of(t, outcomes.drop_first());
        match after {
            AfterAccept::Spawn { id } => seq![id] + rest,
            _ => rest,
        }
    }
}

proof fn lemma_nth_id(k: nat)
    ensures
        nth_id(k) == (k + 1) % 0x1_0000_0000_0000_0000,
    decreases k,
{
    if k > 0 {
        lemma_nth_id((k - 1) as nat);
    }
}

proof fn lemma_ids(s: LoopState, outcomes: Seq<Accepted>, k: nat)
    requires
        s.next_id == nth_id(k),
    ensures
        forall|i: int|
            0 <= i < ids_of(s, outcomes).len() ==> #[trigger] ids_of(s, outcomes)[i] == nth_id(
                (k + i) as nat,
            ),
    decreases outcomes.len(),
{
    if outcomes.len() > 0 {
        let (t, after) = accepted_of(s, outcomes[0]);
        let rest = ids_of(t, outcomes.drop_first());
        if after is Spawn {
            lemma_ids(t, outcomes.drop_first(), k + 1);
            assert forall|i: int| 0 <= i < ids_of(s, outcomes).len() implies #[trigger] ids_of(
                s,
                outcomes,
            )[i] == nth_id((k + i) as nat) by {
                if i > 0 {
                    assert(ids_of(s, outcomes)[i] == rest[i - 1]);
                    assert(k + 1 + (i - 1) == k + i);
                }
            }
        } else {
            lemma_ids(t, outcomes.drop_first(), k);
        }
    }
}

/// Whatever is accepted, fails or stops in between, no two of the connections of
/// a server share a number, as long as fewer than 2^64 lie between them.
pub proof fn connection_ids_are_distinct(
    max_connections: nat,
    outcomes: Seq<Accepted>,
    i: int,
    j: int,
)
    requires
        0 <= i < j < ids_of(
            LoopState { phase: Phase::Free, next_id: 1, max_connections },
            outcomes,
        ).len(),
        j - i < 0x1_0000_0000_0000_0000,
    ensures
        ({
            let s = LoopState { phase: Phase::Free, next_id: 1, max_connections };
            ids_of(s, outcomes)[i] != ids_of(s, outcomes)[j]
        }),
{
    let s = LoopState { phase: Phase::Free, next_id: 1, max_connections };
    lemma_ids(s, outcomes, 0);
    lemma_nth_id(i as nat);
    lemma_nth_id(j as nat);
}

/// A connection is accepted only with a permit in hand, and whatever comes of it,
/// the permit is gone afterwards: it goes with the connection or is given back.
pub proof fn every_connection_has_its_permit(s: LoopState, shutdown: bool, outcome: Accepted)
    ensures
        next_of(s, shutdown).1 is Accept <==> s.phase is Permitted,
        !(accepted_of(s, outcome).0.phase is Permitted),
        accepted_of(s, outcome).1 is Spawn <==> outcome is Connection,
{
}

/// Something that happens to a server.
pub enum ServerEvent {
    /// The loop decides what to do next, with shutdown signalled or not.
    Turn { shutdown: bool },
    /// A wait for a permit ends.
    Permit { acquired: bool },
    /// A wait for a connection ends.
    Accept { outcome: Accepted },
    /// A connection ends and gives its permit back.
    End,
}

/// The accept loop and how many connections are live.
pub struct ServerState {
    pub accept: LoopState,
    pub live: nat,
}

impl ServerState {
    /// A server that has accepted nothing yet.
    pub open spec fn fresh(max_connections: nat) -> ServerState {
        ServerState {
            accept: LoopState { phase: Phase::Free, next_id: 1, max_connections },
            live: 0,
        }
    }

    /// The permits that the loop itself holds.
    pub open spec fn held(self) -> nat {
        if self.accept.phase is Permitted {
            1
        } else {
            0
        }
    }

    /// The permits that are not out: there is one for each connection at most.
    pub open spec fn free(self) -> int {
        self.accept.max_connections - self.held() - self.live
    }

    /// Whether an event can happen: a permit is handed out only where one is free and
    /// the loop waits for it, the loop waits for a connection only where
    /// [`AcceptLoop::next`] says so, and only a live connection ends.
    pub open spec fn allows(self, event: ServerEvent) -> bool {
        match event {
            ServerEvent::Turn { .. } => true,
            ServerEvent::Permit { acquired } => {
                &&& next_of(self.accept, false).1 is Acquire
                &&& acquired ==> self.free() > 0
            },
            ServerEvent::Accept { .. } => next_of(self.accept, false).1 is Accept,
            ServerEvent::End => self.live > 0,
        }
    }

    /// The server after an event. A connection that is accepted is live from then on.
    pub open spec fn after(self, event: ServerEvent) -> ServerState {
        match event {
            ServerEvent::Turn { shutdown } => ServerState {
                accept: next_of(self.accept, shutdown).0,
                ..self
            },
            ServerEvent::Permit { acquired } => ServerState {
                accept: permit_of(self.accept, acquired),
                ..self
            },
            ServerEvent::Accept { outcome } => ServerState {
                accept: accepted_of(self.accept, outcome).0,
                live: if accepted_of(self.accept, outcome).1 is Spawn {
                    self.live + 1
                } else {
                    self.live
                },
            },
            ServerEvent::End => ServerState { live: (self.live - 1) as nat, ..self },
        }
    }
}

/// Whether the events can happen one after the other.
pub open spec fn possible(s: ServerState, events: Seq<ServerEvent>) -> bool
    decreases events.len(),
{
    events.len() == 0 || (s.allows(events[0]) && possible(
        s.after(events[0]),
        events.drop_first(),
    ))
}

/// The server after these events.
pub open spec fn after_all(s: ServerState, events: Seq<ServerEvent>) -> ServerState
    decreases events.len(),
{
    if events.len() == 0 {
        s
    } else {
        after_all(s.after(events[0]), events.drop_first())
    }
}

proof fn lemma_permits_are_kept(s: ServerState, events: Seq<ServerEvent>)
    requires
        s.free() >= 0,
        possible(s, events),
    ensures
        after_all(s, events).free() >= 0,
        after_all(s, events).accept.max_connections == s.accept.max_connections,
    decreases events.len(),
{
    if events.len() > 0 {
        lemma_permits_are_kept(s.after(events[0]), events.drop_first());
    }
}

/// Whatever happens to a server, in whatever order, there are never more live
/// connections than it may have, counting the permit that its loop holds for the next
/// one.
pub proof fn connections_never_exceed_the_limit(max_connections: nat, events: Seq<ServerEvent>)
    requires
        possible(ServerState::fresh(max_connections), events),
    ensures
        ({
            let s = after_all(ServerState::fresh(max_connections), events);
            s.held() + s.live <= max_connections
        }),
{
    lemma_permits_are_kept(ServerState::fresh(max_connections), events);
}

/// Shutdown is complete once the loop can take back the permits that it waits for:
/// then no connection is live.
pub proof fn drained_server_is_idle(
    max_connections: nat,
    events: Seq<ServerEvent>,
    shutdown: bool,
    permits: u32,
)
    requires
        max_connections <= u32::MAX,
        ({
            let s = after_all(ServerState::fresh(max_connections), events);
            &&& possible(ServerState::fresh(max_connections), events)
            &&& next_of(s.accept, shutdown).1 == LoopAction::Drain { permits }
            &&& permits <= s.free()
        }),
    ensures
        after_all(ServerState::fresh(max_connections), events).live == 0,
{
    lemma_permits_are_kept(ServerState::fresh(max_connections), events);
}

/// A loop that has stopped never accepts again, and shutdown is noticed before
/// another permit is waited for.
pub proof fn stopped_loop_only_drains(s: LoopState, shutdown: bool)
    ensures
        s.phase is Stopped ==> next_of(s, shutdown).1 is Drain && next_of(s, shutdown).0 == s,
        s.phase is Free && shutdown ==> next_of(s, shutdown).1 is Drain && next_of(
            s,
            shutdown,
        ).0.phase is Stopped,
{
}

/// Connections are numbered from one on, in the order in which they are accepted.
pub proof fn connections_are_numbered_in_order(
    max_connections: nat,
    outcomes: Seq<Accepted>,
    i: int,
)
    requires
        0 <= i < ids_of(ServerState::fresh(max_connections).accept, outcomes).len(),
        i < u64::MAX,
    ensures
        ids_of(ServerState::fresh(max_connections).accept, outcomes)[i] == i + 1,
{
    lemma_ids(ServerState::fresh(max_connections).accept, outcomes, 0);
    lemma_nth_id(i as nat);
}

/// A loop that is not shut down waits for a permit, then for a connection, and so on; a
/// connection that is accepted is started, and an accept that fails is followed by a
/// rest.
pub proof fn loop_goes_on_until_shutdown(s: LoopState)
    requires
        s.phase is Free,
    ensures
        next_of(s, false) == (s, LoopAction::Acquire),
        next_of(permit_of(s, true), false).1 is Accept,
        permit_of(s, false).phase is Stopped,
        accepted_of(permit_of(s, true), Accepted::Connection).1 == (AfterAccept::Spawn {
            id: s.next_id,
        }),
        accepted_of(permit_of(s, true), Accepted::Connection).0.phase is Free,
        accepted_of(permit_of(s, true), Accepted::Failed).1 == (AfterAccept::Backoff { millis: 50 }),
        accepted_of(permit_of(s, true), Accepted::Failed).0 == s,
        accepted_of(permit_of(s, true), Accepted::Shutdown).1 is Stop,
        accepted_of(permit_of(s, true), Accepted::Shutdown).0.phase is Stopped,
{
}

/// A new loop has accepted nothing, and numbers its connections from one on. A loop waits
/// for a permit while nothing is shut down, and for a connection once it has one. At a
/// shutdown, and from then on, it waits for all permits at once, or for as many as can be
/// asked for.
pub proof fn loop_waits_for_what_it_lacks(
    max_connections: usize,
    fresh: AcceptLoop,
    l: &mut AcceptLoop,
    shutdown: bool,
    action: LoopAction,
)
    requires
        call_ensures(AcceptLoop::new, (max_connections,), fresh),
        call_ensures(AcceptLoop::next, (l, shutdown), action),
    ensures
        fresh@.phase is Free && fresh@.next_id == 1 && fresh@.max_connections == max_connections,
        action is Acquire <==> old(l)@.phase is Free && !shutdown,
        action is Accept <==> old(l)@.phase is Permitted,
        action is Drain ==> final(l)@.phase is Stopped,
        !(action is Drain) ==> final(l)@.phase == old(l)@.phase,
        action is Drain ==> (old(l)@.max_connections <= u32::MAX ==> action->permits
            == old(l)@.max_connections) && (old(l)@.max_connections > u32::MAX ==> action->permits
            == u32::MAX),
        final(l)@.next_id == old(l)@.next_id,
        final(l)@.max_connections == old(l)@.max_connections,
{
}

/// A connection that is accepted is started under the next number. An accept that fails
/// is followed by a rest of 50 milliseconds, and a shutdown by nothing. A loop that gets
/// no permit stops.
pub proof fn accepted_connections_are_started(
    l: &mut AcceptLoop,
    outcome: Accepted,
    after: AfterAccept,
    k: &mut AcceptLoop,
    acquired: bool,
)
    requires
        call_ensures(AcceptLoop::on_accept, (l, outcome), after),
        call_ensures(AcceptLoop::on_permit, (k, acquired), ()),
    ensures
        outcome is Connection ==> after == (AfterAccept::Spawn { id: old(l)@.next_id }),
        outcome is Connection && old(l)@.next_id < u64::MAX ==> final(l)@.next_id
            == old(l)@.next_id + 1,
        outcome is Failed ==> after == (AfterAccept::Backoff { millis: 50 }),
        outcome is Shutdown ==> after is Stop,
        !(outcome is Connection) ==> final(l)@.next_id == old(l)@.next_id,
        final(l)@.phase is Stopped <==> outcome is Shutdown,
        final(l)@.phase is Free <==> !(outcome is Shutdown),
        final(k)@.phase is Permitted <==> acquired,
        final(k)@.phase is Stopped <==> !acquired,
        final(k)@.next_id == old(k)@.next_id,
{
}

} // verus!

//! Connection registry: the set of live connections.
//!
//! The registry is owned by one task, and connection tasks send it [`Cmd`]s.
//! Every registration hands out a [`ConnGuard`], which is given back when the
//! connection ends.

use std::collections::HashMap;
use vstd::prelude::*;

use crate::net::SocketAddress;

verus! {

/// What the owner of the registry is asked to do.
#[derive(Debug, Clone, Copy)]
pub enum Cmd {
    /// A connection has begun.
    Register { id: u64, addr: SocketAddress },
    /// A connection has ended.
    Deregister { id: u64 },
    /// How many connections are live?
    ActiveCount,
}

/// The set of live connections, by connection number.
pub struct Registry {
    conns: HashMap<u64, SocketAddress>,
}

/// The registration of one connection.
#[derive(Debug)]
pub struct ConnGuard {
    id: u64,
}

impl ConnGuard {
    /// The number of the connection that is registered.
    pub closed spec fn id(&self) -> u64 {
        self.id
    }
}

/// The live connections after a command.
pub open spec fn after(live: Map<u64, SocketAddress>, cmd: Cmd) -> Map<u64, SocketAddress> {
    match cmd {
        Cmd::Register { id, addr } => live.insert(id, addr),
        Cmd::Deregister { id } => live.remove(id),
        Cmd::ActiveCount => live,
    }
}

/// The live connections after a sequence of commands.
pub open spec fn after_all(live: Map<u64, SocketAddress>, cmds: Seq<Cmd>) -> Map<u64, SocketAddress>
    decreases cmds.len(),
{
    if cmds.len() == 0 {
        live
    } else {
        after(after_all(live, cmds.drop_last()), cmds.last())
    }
}

impl Registry {
    /// The live connections and their peers.
    pub closed spec fn live(&self) -> Map<u64, SocketAddress> {
        self.conns@
    }

    /// A registry without connections.
    pub fn spawn() -> (r: Self)
        ensures
            r.live() == Map::<u64, SocketAddress>::empty(),
    {
        Registry { conns: HashMap::new() }
    }

    /// Carries out one command; a count is answered.
    pub fn apply(&mut self, cmd: Cmd) -> (reply: Option<usize>)
        ensures
            final(self).live() == after(old(self).live(), cmd),
            reply == match cmd {
                Cmd::ActiveCount => Some(old(self).live().len() as usize),
                _ => None,
            },
            reply matches Some(n) ==> n == old(self).live().len(),
    {
        match cmd {
            Cmd::Register { id, addr } => {
                self.conns.insert(id, addr);
                None
            },
            Cmd::Deregister { id } => {
                self.conns.remove(&id);
                None
            },
            Cmd::ActiveCount => Some(self.conns.len()),
        }
    }

    /// Registers a connection. The guard is given back to [`Registry::release`].
    pub fn guard(&mut self, id: u64, addr: SocketAddress) -> (g: ConnGuard)
        ensures
            g.id() == id,
            final(self).live() == old(self).live().insert(id, addr),
    {
        let _ = self.apply(Cmd::Register { id, addr });
        ConnGuard { id }
    }

    /// Ends the registration that `guard` stands for.
    pub fn release(&mut self, guard: ConnGuard)
        ensures
            final(self).live() == old(self).live().remove(guard.id()),
    {
        let _ = self.apply(Cmd::Deregister { id: guard.id });
    }

    /// Current number of live connections.
    pub fn active_count(&self) -> (n: usize)
        ensures
            n == self.live().len(),
    {
        self.conns.len()
    }
}

/// Whether `id` is live after `cmds` is decided by the last command that names
/// it: live if that registered it, not live if that deregistered it, and as
/// before if none did. So a connection that has been deregistered never lingers.
pub proof fn last_command_decides(live: Map<u64, SocketAddress>, cmds: Seq<Cmd>, k: int, id: u64)
    requires
        0 <= k < cmds.len(),
        cmds[k] matches Cmd::Register { id: i, .. } && i == id || cmds[k]
            == (Cmd::Deregister { id }),
        forall|j: int|
            k < j < cmds.len() ==> !(#[trigger] cmds[j] matches Cmd::Register { id: i, .. } && i
                == id) && cmds[j] != (Cmd::Deregister { id }),
    ensures
        after_all(live, cmds).contains_key(id) <==> cmds[k] is Register,
    decreases cmds.len(),
{
    if k < cmds.len() - 1 {
        let front = cmds.drop_last();
        assert(front[k] == cmds[k]);
        assert forall|j: int| k < j < front.len() implies !(#[trigger] front[j] matches Cmd::Register {
            id: i,
            ..
        } && i == id) && front[j] != (Cmd::Deregister { id }) by {
            assert(front[j] == cmds[j]);
        }
        last_command_decides(live, front, k, id);
        assert(cmds.last() == cmds[cmds.len() - 1]);
    }
}

/// A connection that begins and ends leaves the others as they were.
pub proof fn register_then_deregister_restores(
    live: Map<u64, SocketAddress>,
    id: u64,
    addr: SocketAddress,
)
    requires
        !live.contains_key(id),
    ensures
        after(after(live, Cmd::Register { id, addr }), Cmd::Deregister { id }) == live,
        live.dom().finite() ==> after(live, Cmd::Register { id, addr }).len() == live.len() + 1,
{
    assert(live.insert(id, addr).remove(id) =~= live);
}

/// A command names one connection and leaves every other as it is; a registration keeps
/// the address that it came with.
pub proof fn commands_leave_others_alone(
    live: Map<u64, SocketAddress>,
    id: u64,
    addr: SocketAddress,
    k: u64,
)
    ensures
        after(live, Cmd::Register { id, addr }).contains_key(id),
        after(live, Cmd::Register { id, addr })[id] == addr,
        !after(live, Cmd::Deregister { id }).contains_key(id),
        after(live, Cmd::ActiveCount) == live,
        k != id ==> (after(live, Cmd::Register { id, addr }).contains_key(k) <==> live.contains_key(
            k,
        )) && (after(live, Cmd::Deregister { id }).contains_key(k) <==> live.contains_key(k)),
        k != id && live.contains_key(k) ==> after(live, Cmd::Register { id, addr })[k] == live[k]
            && after(live, Cmd::Deregister { id })[k] == live[k],
{
}

/// A connection is live from its registration until its guard is released, under the
/// address it came with, and the others stay as they are. What is counted is what is
/// live.
pub proof fn connections_live_while_guarded(
    r: &mut Registry,
    id: u64,
    addr: SocketAddress,
    g: ConnGuard,
    s: &mut Registry,
    n: usize,
    other: u64,
)
    requires
        call_ensures(Registry::guard, (r, id, addr), g),
        *old(s) == *final(r),
        call_ensures(Registry::release, (s, g), ()),
        call_ensures(Registry::active_count, (final(r),), n),
    ensures
        final(r).live().contains_key(id) && final(r).live()[id] == addr,
        !final(s).live().contains_key(id),
        other != id ==> {
            &&& final(r).live().contains_key(other) <==> old(r).live().contains_key(other)
            &&& final(s).live().contains_key(other) <==> old(r).live().contains_key(other)
            &&& old(r).live().contains_key(other) ==> final(s).live()[other]
                == old(r).live()[other]
        },
        old(r).live().dom().finite() && !old(r).live().contains_key(id) ==> n
            == old(r).live().len() + 1,
{
}

/// A registry carries out each command, and answers a count and nothing else.
pub proof fn commands_are_carried_out(r: &mut Registry, cmd: Cmd, reply: Option<usize>, k: u64)
    requires
        call_ensures(Registry::apply, (r, cmd), reply),
    ensures
        reply is Some <==> cmd is ActiveCount,
        reply is Some ==> reply->Some_0 == old(r).live().len() && final(r).live()
            == old(r).live(),
        cmd matches Cmd::Register { id, addr } ==> final(r).live().contains_key(id)
            && final(r).live()[id] == addr,
        cmd matches Cmd::Deregister { id } ==> !final(r).live().contains_key(id),
        !(cmd matches Cmd::Register { id, .. } && id == k) && !(cmd matches Cmd::Deregister { id }
            && id == k) ==> (final(r).live().contains_key(k) <==> old(r).live().contains_key(k)),
{
}

} // verus!

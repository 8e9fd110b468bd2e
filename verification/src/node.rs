//! The facade: the operations a caller has against the node — initiate a
//! connection, write, subscribe to reads, close, and bulk shutdown.
//!
//! Each operation either consults the registry or resolves to a command owed
//! to one connection actor's inbox. The surrounding task performs the sends;
//! the decisions — which address routes where, when an operation fails with
//! "connection not established", what a close leaves behind — stand here.

use vstd::prelude::*;

use crate::actor::Command;
use crate::addr::PeerAddr;
use crate::registry::Registry;

verus! {

/// Why a facade operation failed.
#[derive(PartialEq, Eq, Structural, Debug, Clone, Copy)]
pub enum NodeError {
    /// The address has no established connection in the registry.
    NotConnected,
}

/// The decision taken when a caller initiates a connection.
#[derive(PartialEq, Eq, Structural, Debug, Clone, Copy)]
pub enum ConnectDecision {
    /// The address is already established: succeed without a new actor.
    AlreadyEstablished,
    /// The address is free: dial and run the handshake.
    Dial,
}

/// The decision a connect takes against a given registry: short-circuit when
/// the address is already established, dial otherwise.
pub open spec fn connect_decision(m: Map<PeerAddr, u64>, addr: PeerAddr) -> ConnectDecision {
    if m.contains_key(addr) {
        ConnectDecision::AlreadyEstablished
    } else {
        ConnectDecision::Dial
    }
}

/// The node's registry of established connections, keyed by peer address.
pub struct Node {
    registry: Registry,
}

impl View for Node {
    type V = Map<PeerAddr, u64>;

    closed spec fn view(&self) -> Map<PeerAddr, u64> {
        self.registry@
    }
}

impl Node {
    /// A fresh node: nothing is connected.
    pub fn new() -> (r: Self)
        ensures
            r@ == Map::<PeerAddr, u64>::empty(),
    {
        Node { registry: Registry::new() }
    }

    /// The first half of connection establishment: decide whether to dial.
    /// An address already established short-circuits to success — the
    /// idempotent-connect policy — and nothing changes.
    pub fn connect_begin(&self, addr: PeerAddr) -> (r: ConnectDecision)
        ensures
            r == connect_decision(self@, addr),
    {
        if self.registry.contains(addr) {
            ConnectDecision::AlreadyEstablished
        } else {
            ConnectDecision::Dial
        }
    }

    /// The second half: once the handshake synchronizer has fired, record the
    /// established connection's handle under its address.
    pub fn connect_established(&mut self, addr: PeerAddr, handle: u64)
        ensures
            final(self)@ == old(self)@.insert(addr, handle),
    {
        self.registry.insert(addr, handle);
    }

    /// Route a write: the bytes become a `Write` command owed to the
    /// connection's inbox, or the operation fails because no connection is
    /// established for the address.
    pub fn write(&self, addr: PeerAddr, bytes: Vec<u8>) -> (r: Result<(u64, Command), NodeError>)
        ensures
            match r {
                Ok((handle, cmd)) => self@.contains_key(addr)
                    && handle == self@[addr]
                    && cmd == Command::Write(bytes),
                Err(e) => !self@.contains_key(addr) && e == NodeError::NotConnected,
            },
    {
        match self.registry.get(addr) {
            Some(handle) => Ok((handle, Command::Write(bytes))),
            None => Err(NodeError::NotConnected),
        }
    }

    /// Route a subscription: a fresh subscriber handle becomes a
    /// `NewListener` command owed to the connection's inbox, or the operation
    /// fails because no connection is established for the address.
    pub fn reader(&self, addr: PeerAddr, listener: u64) -> (r: Result<(u64, Command), NodeError>)
        ensures
            match r {
                Ok((handle, cmd)) => self@.contains_key(addr)
                    && handle == self@[addr]
                    && cmd == Command::NewListener(listener),
                Err(e) => !self@.contains_key(addr) && e == NodeError::NotConnected,
            },
    {
        match self.registry.get(addr) {
            Some(handle) => Ok((handle, Command::NewListener(listener))),
            None => Err(NodeError::NotConnected),
        }
    }

    /// Close a connection: the registry entry is removed first, then a
    /// `Close` command is owed to the removed handle, if there was one. A
    /// send that fails because the actor already exited is tolerated, so the
    /// operation itself cannot fail.
    pub fn close(&mut self, addr: PeerAddr) -> (r: Option<(u64, Command)>)
        ensures
            final(self)@ == old(self)@.remove(addr),
            match r {
                Some((handle, cmd)) => old(self)@.contains_key(addr)
                    && handle == old(self)@[addr]
                    && cmd == Command::Close,
                None => !old(self)@.contains_key(addr),
            },
    {
        match self.registry.remove(addr) {
            Some(handle) => Some((handle, Command::Close)),
            None => None,
        }
    }

    /// Bulk teardown: close every currently established connection. The
    /// registry is left empty; the result owes a `Close` to each previously
    /// registered handle, each address exactly once, errors swallowed
    /// individually.
    pub fn shutdown(&mut self) -> (r: Vec<(PeerAddr, u64)>)
        ensures
            final(self)@ == Map::<PeerAddr, u64>::empty(),
            forall|i: int|
                0 <= i < r@.len() ==> old(self)@.contains_key(#[trigger] r@[i].0)
                    && old(self)@[r@[i].0] == r@[i].1,
            forall|k: PeerAddr|
                old(self)@.contains_key(k) ==> exists|i: int|
                    0 <= i < r@.len() && #[trigger] r@[i].0 == k,
            forall|i: int, j: int|
                0 <= i < r@.len() && 0 <= j < r@.len() && i != j ==> r@[i].0 != r@[j].0,
    {
        let ghost m0 = self@;
        let mut reg = Registry::new();
        std::mem::swap(&mut self.registry, &mut reg);
        let snap = reg.snapshot_addresses();
        let mut out: Vec<(PeerAddr, u64)> = Vec::new();
        let mut i: usize = 0;
        while i < snap.len()
            invariant
                i <= snap@.len(),
                snap@.no_duplicates(),
                reg@ == m0,
                forall|k: PeerAddr| #[trigger] snap@.contains(k) <==> m0.contains_key(k),
                out@.len() == i,
                forall|j: int|
                    0 <= j < i ==> #[trigger] out@[j].0 == snap@[j] && m0.contains_key(out@[j].0)
                        && m0[out@[j].0] == out@[j].1,
            decreases snap@.len() - i,
        {
            let k = snap[i];
            proof {
                assert(snap@.contains(k));
            }
            match reg.get(k) {
                Some(handle) => {
                    out.push((k, handle));
                },
                None => {
                    proof {
                        assert(false);
                    }
                },
            }
            i += 1;
        }
        proof {
            assert forall|k: PeerAddr|
                m0.contains_key(k) implies exists|j: int|
                0 <= j < out@.len() && #[trigger] out@[j].0 == k by {
                assert(snap@.contains(k));
                let j = choose|j: int| 0 <= j < snap@.len() && snap@[j] == k;
                assert(out@[j].0 == k);
            }
        }
        out
    }
}

/// Idempotent-connect law: initiating a connection to an address that is
/// already established short-circuits to success, creates no second actor,
/// and leaves the registry exactly as it was — at most one live connection
/// per address.
pub proof fn lemma_connect_idempotent(m: Map<PeerAddr, u64>, addr: PeerAddr)
    requires
        m.contains_key(addr),
    ensures
        connect_decision(m, addr) == ConnectDecision::AlreadyEstablished,
        connect_decision(m, addr) != ConnectDecision::Dial,
{
}

/// Close law: after a close, the address is gone from the registry, so a
/// write against it fails with "connection not established", while a fresh
/// connect for the same address decides to dial — a new connection may be
/// established again.
pub proof fn lemma_close_then_write_fails(m: Map<PeerAddr, u64>, addr: PeerAddr)
    ensures
        !m.remove(addr).contains_key(addr),
        connect_decision(m.remove(addr), addr) == ConnectDecision::Dial,
{
}

} // verus!

//! A connection wrapper: the transport, a unique id, a "closed" mark and the state that
//! protocol processors attach to it when protocols are stacked.

use vstd::prelude::*;
use crate::dialog::DialogStep;

verus! {

/// Unique identifier of a connection.
pub type ConnectionId = u32;

/// Wraps a transport `connection`, attaching a unique id, a "closed" mark and a custom state.
pub struct SocketConnection<ConnectionType, StateType> {
    connection: ConnectionType,
    closed: bool,
    id: ConnectionId,
    state: StateType,
}

impl<ConnectionType, StateType> SocketConnection<ConnectionType, StateType> {
    /// The wrapped transport.
    pub closed spec fn spec_connection(&self) -> ConnectionType {
        self.connection
    }

    /// Whether the connection was reported closed.
    pub closed spec fn spec_closed(&self) -> bool {
        self.closed
    }

    /// The connection's unique id.
    pub closed spec fn spec_id(&self) -> ConnectionId {
        self.id
    }

    /// The state attached to the connection.
    pub closed spec fn spec_state(&self) -> StateType {
        self.state
    }

    /// Wraps `connection`, identified by `id` (drawn from a process-wide counter), with its
    /// `initial_state`; it starts open.
    pub fn new(connection: ConnectionType, initial_state: StateType, id: ConnectionId) -> (wrapped: Self)
        ensures
            wrapped.spec_connection() == connection,
            wrapped.spec_state() == initial_state,
            wrapped.spec_id() == id,
            !wrapped.spec_closed(),
    {
        SocketConnection { connection, closed: false, id, state: initial_state }
    }

    /// The wrapped transport.
    pub fn connection(&self) -> (connection: &ConnectionType)
        ensures
            *connection == self.spec_connection(),
    {
        &self.connection
    }

    /// The wrapped transport, for reading and writing.
    pub fn connection_mut(&mut self) -> (connection: &mut ConnectionType)
        ensures
            *connection == old(self).spec_connection(),
            final(self).spec_connection() == *final(connection),
            final(self).spec_closed() == old(self).spec_closed(),
            final(self).spec_id() == old(self).spec_id(),
            final(self).spec_state() == old(self).spec_state(),
    {
        &mut self.connection
    }

    /// The connection's unique id.
    pub fn id(&self) -> (id: ConnectionId)
        ensures
            id == self.spec_id(),
    {
        self.id
    }

    /// The state attached to the connection.
    pub fn state(&self) -> (state: &StateType)
        ensures
            *state == self.spec_state(),
    {
        &self.state
    }

    /// Attaches `new_state` to the connection, in place of the previous one.
    pub fn set_state(&mut self, new_state: StateType)
        ensures
            final(self).spec_state() == new_state,
            final(self).spec_connection() == old(self).spec_connection(),
            final(self).spec_closed() == old(self).spec_closed(),
            final(self).spec_id() == old(self).spec_id(),
    {
        self.state = new_state;
    }

    /// Whether the connection was reported closed.
    pub fn closed(&self) -> (closed: bool)
        ensures
            closed == self.spec_closed(),
    {
        self.closed
    }

    /// Takes back the state the peer held when its dialog ended: the connection adopts it if
    /// the peer still held one, and keeps its own otherwise.
    pub fn restore_state(&mut self, peer_state: Option<StateType>)
        ensures
            final(self).spec_state() == match peer_state {
                Some(state) => state,
                None => old(self).spec_state(),
            },
            final(self).spec_connection() == old(self).spec_connection(),
            final(self).spec_closed() == old(self).spec_closed(),
            final(self).spec_id() == old(self).spec_id(),
    {
        if let Some(state) = peer_state {
            self.set_state(state);
        }
    }

    /// Marks the connection as closed; nothing else changes.
    pub fn report_closed(&mut self)
        ensures
            final(self).spec_closed(),
            final(self).spec_connection() == old(self).spec_connection(),
            final(self).spec_id() == old(self).spec_id(),
            final(self).spec_state() == old(self).spec_state(),
    {
        self.closed = true;
    }

    /// Unwraps the transport and the state, for handing the connection on to another protocol.
    pub fn into_connection_and_state(self) -> (parts: (ConnectionType, StateType))
        ensures
            parts.0 == self.spec_connection(),
            parts.1 == self.spec_state(),
    {
        (self.connection, self.state)
    }

    /// Applies a dialog decision: marks the connection closed if `step` says so, and tells
    /// whether the dialog ends.
    pub fn apply_step(&mut self, step: DialogStep) -> (end_dialog: bool)
        ensures
            end_dialog == step.end_dialog,
            final(self).spec_closed() == (old(self).spec_closed() || step.report_closed),
            final(self).spec_connection() == old(self).spec_connection(),
            final(self).spec_id() == old(self).spec_id(),
            final(self).spec_state() == old(self).spec_state(),
    {
        if step.report_closed {
            self.report_closed();
        }
        step.end_dialog
    }
}

/// The id that follows `id`: the next number, wrapping around after the largest.
pub open spec fn id_after(id: ConnectionId) -> ConnectionId {
    if id == u32::MAX {
        0
    } else {
        (id + 1) as ConnectionId
    }
}

/// Hands out connection ids: each new connection gets the next one, so connections made one
/// after the other have successive (wrapping) ids.
pub struct ConnectionIds {
    next: ConnectionId,
}

impl ConnectionIds {
    /// The id the next connection will get.
    pub closed spec fn next_id(&self) -> ConnectionId {
        self.next
    }

    /// Ids starting from 0.
    pub fn new() -> (ids: Self)
        ensures
            ids.next_id() == 0,
    {
        ConnectionIds { next: 0 }
    }

    /// Wraps `connection` with `initial_state`, open, under the next id.
    pub fn new_connection<ConnectionType, StateType>(&mut self, connection: ConnectionType, initial_state: StateType) -> (wrapped: SocketConnection<ConnectionType, StateType>)
        ensures
            wrapped.spec_id() == old(self).next_id(),
            final(self).next_id() == id_after(old(self).next_id()),
            wrapped.spec_connection() == connection,
            wrapped.spec_state() == initial_state,
            !wrapped.spec_closed(),
    {
        let id = self.next;
        self.next = if id == u32::MAX { 0 } else { id + 1 };
        SocketConnection::new(connection, initial_state, id)
    }
}

/// The id handed out by the `n`-th allocation (counting from 0) of ids starting at `start`.
pub open spec fn nth_id(start: ConnectionId, n: nat) -> ConnectionId
    decreases n,
{
    if n == 0 {
        start
    } else {
        id_after(nth_id(start, (n - 1) as nat))
    }
}

/// The `n`-th id is `start + n`, wrapping around modulo 2^32.
pub proof fn lemma_nth_id(start: ConnectionId, n: nat)
    ensures
        nth_id(start, n) as int == (start as int + n) % 0x1_0000_0000,
    decreases n,
{
    if n > 0 {
        let m = (n - 1) as nat;
        lemma_nth_id(start, m);
        let prev = nth_id(start, m) as int;
        let x = start as int + m;
        vstd::arithmetic::div_mod::lemma_fundamental_div_mod(x, 0x1_0000_0000);
        vstd::arithmetic::div_mod::lemma_fundamental_div_mod(x + 1, 0x1_0000_0000);
        if prev == u32::MAX as int {
            assert((x + 1) % 0x1_0000_0000 == 0) by {
                vstd::arithmetic::div_mod::lemma_fundamental_div_mod_converse(x + 1, 0x1_0000_0000, x / 0x1_0000_0000 + 1, 0);
            }
        } else {
            assert((x + 1) % 0x1_0000_0000 == prev + 1) by {
                vstd::arithmetic::div_mod::lemma_fundamental_div_mod_converse(x + 1, 0x1_0000_0000, x / 0x1_0000_0000, prev + 1);
            }
        }
    }
}

/// Every connection gets its own id: of fewer than 2^32 successive allocations, no two hand
/// out the same id.
pub proof fn lemma_ids_distinct(start: ConnectionId, i: nat, j: nat)
    requires
        i < j < 0x1_0000_0000,
    ensures
        nth_id(start, i) != nth_id(start, j),
{
    lemma_nth_id(start, i);
    lemma_nth_id(start, j);
    let a = start as int + i;
    let b = start as int + j;
    vstd::arithmetic::div_mod::lemma_fundamental_div_mod(a, 0x1_0000_0000);
    vstd::arithmetic::div_mod::lemma_fundamental_div_mod(b, 0x1_0000_0000);
    if a % 0x1_0000_0000 == b % 0x1_0000_0000 {
        assert(false) by (nonlinear_arith)
            requires
                a == 0x1_0000_0000 * (a / 0x1_0000_0000) + a % 0x1_0000_0000,
                b == 0x1_0000_0000 * (b / 0x1_0000_0000) + b % 0x1_0000_0000,
                a % 0x1_0000_0000 == b % 0x1_0000_0000,
                0 < b - a < 0x1_0000_0000,
        ;
    }
}

} // verus!

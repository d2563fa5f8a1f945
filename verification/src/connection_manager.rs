//! The registry of live listener connections.
//!
//! Server-originated events are broadcast to every registered connection's
//! bounded outbound queue, best-effort: a full queue for one connection drops
//! that one delivery and never blocks or fails delivery to any other
//! connection. Connections are removed when their transport closes.

use vstd::prelude::*;

use crate::ws::ServerMessage;

verus! {

/// A registered listener: an identity, its bounded outbound queue, and the
/// metadata recorded when the transport was accepted.
pub struct Connection {
    /// Identity of this connection inside the registry.
    pub conn_id: u64,
    /// The user agent the listener announced.
    pub user_agent: String,
    /// The peer address of the underlying transport, as text.
    pub addr: String,
    /// Bound of the outbound queue; deliveries beyond it are dropped.
    pub capacity: usize,
    /// Events delivered to this listener and not yet pumped out, oldest
    /// first.
    pub outbound: Vec<ServerMessage>,
}

/// Index of the connection with the given identity, if registered.
pub open spec fn find_conn(conns: Seq<Connection>, conn_id: u64) -> Option<int> {
    if exists|k: int| 0 <= k < conns.len() && (#[trigger] conns[k]).conn_id == conn_id {
        Some(choose|k: int| 0 <= k < conns.len() && (#[trigger] conns[k]).conn_id == conn_id)
    } else {
        None
    }
}

/// Holds live listener connections and fans server-originated events out to
/// all of them, isolating slow or broken listeners from one another.
pub struct ConnectionManager {
    /// The registered connections.
    pub connections: Vec<Connection>,
    /// The identity the next accepted connection will get.
    pub next_conn_id: u64,
    /// The outbound queue bound given to newly accepted connections.
    pub default_capacity: usize,
}

impl ConnectionManager {
    /// Well-formedness: connection identities are unique and below the next
    /// identity to hand out, and no outbound queue exceeds its bound.
    pub open spec fn wf(self) -> bool {
        &&& forall|i: int, j: int|
            0 <= i < j < self.connections@.len() ==> (#[trigger] self.connections@[i]).conn_id != (
            #[trigger] self.connections@[j]).conn_id
        &&& forall|i: int|
            0 <= i < self.connections@.len() ==> (#[trigger] self.connections@[i]).conn_id
                < self.next_conn_id
        &&& forall|i: int|
            0 <= i < self.connections@.len() ==> (#[trigger] self.connections@[i]).outbound@.len()
                <= self.connections@[i].capacity
    }

    /// An empty registry whose future connections get the given queue bound.
    pub fn new(default_capacity: usize) -> (r: ConnectionManager)
        ensures
            r.wf(),
            r.connections@.len() == 0,
            r.next_conn_id == 0,
            r.default_capacity == default_capacity,
    {
        ConnectionManager { connections: Vec::new(), next_conn_id: 0, default_capacity }
    }

    /// Registers a listener under a fresh identity with an empty outbound
    /// queue; every already registered connection is untouched.
    pub fn accept_connection(&mut self, user_agent: String, addr: String) -> (id: u64)
        requires
            old(self).wf(),
            old(self).next_conn_id < u64::MAX,
        ensures
            final(self).wf(),
            id == old(self).next_conn_id,
            final(self).next_conn_id == old(self).next_conn_id + 1,
            final(self).default_capacity == old(self).default_capacity,
            final(self).connections@.len() == old(self).connections@.len() + 1,
            final(self).connections@.subrange(0, old(self).connections@.len() as int) == old(
                self,
            ).connections@,
            final(self).connections@.last().conn_id == id,
            final(self).connections@.last().user_agent == user_agent,
            final(self).connections@.last().addr == addr,
            final(self).connections@.last().capacity == old(self).default_capacity,
            final(self).connections@.last().outbound@.len() == 0,
    {
        let id = self.next_conn_id;
        self.next_conn_id = self.next_conn_id + 1;
        let conn = Connection {
            conn_id: id,
            user_agent,
            addr,
            capacity: self.default_capacity,
            outbound: Vec::new(),
        };
        self.connections.push(conn);
        proof {
            assert(final(self).connections@.subrange(0, old(self).connections@.len() as int)
                =~= old(self).connections@);
        }
        id
    }

    /// Broadcasts one event to every registered connection, best-effort:
    /// a connection with room gets the event appended to its outbound queue;
    /// a connection whose queue is full drops this delivery and nothing else
    /// changes for it. What one connection receives depends on its own queue
    /// alone — a full or broken queue never blocks delivery to the others.
    pub fn broadcast(&mut self, msg: &ServerMessage)
        requires
            old(self).wf(),
        ensures
            final(self).wf(),
            final(self).next_conn_id == old(self).next_conn_id,
            final(self).default_capacity == old(self).default_capacity,
            final(self).connections@.len() == old(self).connections@.len(),
            forall|i: int|
                0 <= i < old(self).connections@.len() ==> {
                    let before = old(self).connections@[i];
                    let after = #[trigger] final(self).connections@[i];
                    &&& after.conn_id == before.conn_id
                    &&& after.user_agent == before.user_agent
                    &&& after.addr == before.addr
                    &&& after.capacity == before.capacity
                    &&& (if before.outbound@.len() < before.capacity {
                        after.outbound@ == before.outbound@.push(*msg)
                    } else {
                        after.outbound@ == before.outbound@
                    })
                },
    {
        let n = self.connections.len();
        let mut i: usize = 0;
        while i < n
            invariant
                n == self.connections@.len(),
                n == old(self).connections@.len(),
                0 <= i <= n,
                self.next_conn_id == old(self).next_conn_id,
                self.default_capacity == old(self).default_capacity,
                forall|j: int|
                    i <= j < n ==> #[trigger] self.connections@[j] == old(self).connections@[j],
                forall|j: int|
                    0 <= j < i ==> {
                        let before = old(self).connections@[j];
                        let after = #[trigger] self.connections@[j];
                        &&& after.conn_id == before.conn_id
                        &&& after.user_agent == before.user_agent
                        &&& after.addr == before.addr
                        &&& after.capacity == before.capacity
                        &&& (if before.outbound@.len() < before.capacity {
                            after.outbound@ == before.outbound@.push(*msg)
                        } else {
                            after.outbound@ == before.outbound@
                        })
                    },
            decreases n - i,
        {
            let room = self.connections[i].outbound.len() < self.connections[i].capacity;
            if room {
                let m = msg.clone();
                let c = &mut self.connections[i];
                c.outbound.push(m);
            }
            i = i + 1;
        }
    }

    /// Pops the oldest event queued for the given connection: the pump that
    /// feeds the listener's transport. Every other connection is untouched.
    pub fn next_outbound(&mut self, conn_id: u64) -> (r: Option<ServerMessage>)
        requires
            old(self).wf(),
        ensures
            final(self).wf(),
            final(self).next_conn_id == old(self).next_conn_id,
            final(self).default_capacity == old(self).default_capacity,
            final(self).connections@.len() == old(self).connections@.len(),
            forall|i: int|
                0 <= i < old(self).connections@.len() && (#[trigger] old(
                    self,
                ).connections@[i]).conn_id != conn_id ==> final(self).connections@[i] == old(
                    self,
                ).connections@[i],
            forall|i: int|
                0 <= i < old(self).connections@.len() && (#[trigger] old(
                    self,
                ).connections@[i]).conn_id == conn_id ==> {
                    let before = old(self).connections@[i];
                    let after = final(self).connections@[i];
                    &&& after.conn_id == before.conn_id
                    &&& after.user_agent == before.user_agent
                    &&& after.addr == before.addr
                    &&& after.capacity == before.capacity
                    &&& (if before.outbound@.len() > 0 {
                        r == Some(before.outbound@[0]) && after.outbound@ == before.outbound@.drop_first()
                    } else {
                        r is None && after.outbound@ == before.outbound@
                    })
                },
            (forall|i: int|
                0 <= i < old(self).connections@.len() ==> (#[trigger] old(
                    self,
                ).connections@[i]).conn_id != conn_id) ==> r is None && *final(self) == *old(self),
    {
        let n = self.connections.len();
        let mut i: usize = 0;
        while i < n
            invariant
                old(self).wf(),
                n == self.connections@.len(),
                *self == *old(self),
                0 <= i <= n,
                forall|j: int|
                    0 <= j < i ==> (#[trigger] self.connections@[j]).conn_id != conn_id,
            decreases n - i,
        {
            if self.connections[i].conn_id == conn_id {
                proof {
                    lemma_matching_index_unique(old(self).connections@, conn_id, i as int);
                }
                if self.connections[i].outbound.len() > 0 {
                    let c = &mut self.connections[i];
                    let m = c.outbound.remove(0);
                    proof {
                        assert(old(self).connections@[i as int].outbound@.remove(0) =~= old(
                            self,
                        ).connections@[i as int].outbound@.drop_first());
                    }
                    return Some(m);
                } else {
                    return None;
                }
            }
            i = i + 1;
        }
        None
    }

    /// Removes the connection with the given identity, if registered: called
    /// when the underlying transport closes. Every other connection keeps its
    /// place and its queued events.
    pub fn remove_connection(&mut self, conn_id: u64)
        requires
            old(self).wf(),
        ensures
            final(self).wf(),
            final(self).next_conn_id == old(self).next_conn_id,
            final(self).default_capacity == old(self).default_capacity,
            (match find_conn(old(self).connections@, conn_id) {
                Some(k) => final(self).connections@ == old(self).connections@.remove(k)
                    && final(self).default_capacity == old(self).default_capacity,
                None => *final(self) == *old(self),
            }),
    {
        let n = self.connections.len();
        let mut i: usize = 0;
        while i < n
            invariant
                old(self).wf(),
                n == self.connections@.len(),
                *self == *old(self),
                0 <= i <= n,
                forall|j: int|
                    0 <= j < i ==> (#[trigger] self.connections@[j]).conn_id != conn_id,
            decreases n - i,
        {
            if self.connections[i].conn_id == conn_id {
                proof {
                    lemma_matching_index_unique(old(self).connections@, conn_id, i as int);
                    old(self).connections@.remove_ensures(i as int);
                }
                self.connections.remove(i);
                return ;
            }
            i = i + 1;
        }
        proof {
            assert(find_conn(old(self).connections@, conn_id) is None);
        }
    }
}

/// In a sequence of connections with pairwise distinct identities, the index
/// holding a given identity is the only one, and `find_conn` returns it.
proof fn lemma_matching_index_unique(conns: Seq<Connection>, conn_id: u64, i: int)
    requires
        forall|p: int, q: int|
            0 <= p < q < conns.len() ==> (#[trigger] conns[p]).conn_id != (
            #[trigger] conns[q]).conn_id,
        0 <= i < conns.len(),
        conns[i].conn_id == conn_id,
    ensures
        forall|j: int|
            0 <= j < conns.len() && (#[trigger] conns[j]).conn_id == conn_id ==> j == i,
        find_conn(conns, conn_id) == Some(i),
{
    assert forall|j: int|
        0 <= j < conns.len() && (#[trigger] conns[j]).conn_id == conn_id implies j == i by {
        if j < i {
            assert(conns[j].conn_id != conns[i].conn_id);
        } else if j > i {
            assert(conns[i].conn_id != conns[j].conn_id);
        }
    }
}

} // verus!

//! Fan-out of decoded records to the live set of downstream clients.
//!
//! The broadcaster owns the registration order and the pruning rule; the
//! transport layer performs the writes. One broadcast pass snapshots the
//! live set, attempts a write to every client in that snapshot, and then
//! removes exactly the clients whose write failed with a connection
//! reset — removal never perturbs delivery order and never skips a live
//! client within the same pass.

use vstd::prelude::*;

verus! {

/// How the transport classified one client write.
#[derive(Debug, PartialEq, Eq, Structural, Clone, Copy)]
pub enum WriteOutcome {
    /// The record reached the client.
    Delivered,
    /// The write failed with a connection reset: the client is dropped.
    ConnectionReset,
}

/// The clients that survive one broadcast pass: those whose write was
/// delivered, in their original order. `ids` and `outcomes` correspond
/// index by index.
pub open spec fn surviving_clients(ids: Seq<u64>, outcomes: Seq<WriteOutcome>) -> Seq<u64>
    decreases ids.len(),
{
    if ids.len() == 0 {
        Seq::empty()
    } else {
        let rest = surviving_clients(ids.drop_last(), outcomes.drop_last());
        if outcomes.last() == WriteOutcome::Delivered {
            rest.push(ids.last())
        } else {
            rest
        }
    }
}

/// The live set of downstream clients, identified by the stable ids the
/// transport layer hands out on accept.
pub struct Broadcaster {
    clients: Vec<u64>,
}

impl View for Broadcaster {
    type V = Seq<u64>;

    closed spec fn view(&self) -> Seq<u64> {
        self.clients@
    }
}

impl Broadcaster {
    /// A broadcaster with no clients yet.
    pub fn new() -> (broadcaster: Broadcaster)
        ensures
            broadcaster@ == Seq::<u64>::empty(),
    {
        Broadcaster { clients: Vec::new() }
    }

    /// Registers a newly-accepted client at the end of the live set.
    pub fn register(&mut self, id: u64)
        ensures
            final(self)@ == old(self)@.push(id),
    {
        self.clients.push(id);
    }

    /// How many clients are live.
    pub fn client_count(&self) -> (count: usize)
        ensures
            count == self@.len(),
    {
        self.clients.len()
    }

    /// The snapshot one broadcast pass delivers to: every live client,
    /// in registration order. The transport attempts a write to each id
    /// of the snapshot and reports the outcomes to `apply_outcomes`.
    pub fn delivery_order(&self) -> (snapshot: Vec<u64>)
        ensures
            snapshot@ == self@,
    {
        let mut snapshot: Vec<u64> = Vec::new();
        let mut i: usize = 0;
        while i < self.clients.len()
            invariant
                0 <= i <= self.clients@.len(),
                snapshot@ == self.clients@.subrange(0, i as int),
            decreases self.clients@.len() - i,
        {
            snapshot.push(self.clients[i]);
            proof {
                assert(snapshot@ =~= self.clients@.subrange(0, i + 1));
            }
            i = i + 1;
        }
        proof {
            assert(self.clients@.subrange(0, self.clients@.len() as int) =~= self.clients@);
        }
        snapshot
    }

    /// Removes the clients whose write failed, after the whole snapshot
    /// has been attempted. `outcomes[i]` is the outcome for the client
    /// that was at position `i` of the pass's snapshot; exactly the
    /// clients that were delivered to stay, in their original order.
    pub fn apply_outcomes(&mut self, outcomes: &Vec<WriteOutcome>)
        requires
            outcomes@.len() == old(self)@.len(),
        ensures
            final(self)@ == surviving_clients(old(self)@, outcomes@),
    {
        let mut kept: Vec<u64> = Vec::new();
        let mut i: usize = 0;
        while i < self.clients.len()
            invariant
                0 <= i <= self.clients@.len(),
                outcomes@.len() == self.clients@.len(),
                kept@ == surviving_clients(
                    self.clients@.subrange(0, i as int),
                    outcomes@.subrange(0, i as int),
                ),
            decreases self.clients@.len() - i,
        {
            proof {
                assert(self.clients@.subrange(0, i + 1).drop_last() =~= self.clients@.subrange(
                    0,
                    i as int,
                ));
                assert(outcomes@.subrange(0, i + 1).drop_last() =~= outcomes@.subrange(
                    0,
                    i as int,
                ));
            }
            if outcomes[i] == WriteOutcome::Delivered {
                kept.push(self.clients[i]);
            }
            i = i + 1;
        }
        proof {
            assert(self.clients@.subrange(0, self.clients@.len() as int) =~= self.clients@);
            assert(outcomes@.subrange(0, outcomes@.len() as int) =~= outcomes@);
        }
        self.clients = kept;
    }
}

} // verus!

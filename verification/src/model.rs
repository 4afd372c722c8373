//! The mathematical model of a party endpoint: what the contracts of the
//! communication layer speak of.

use vstd::prelude::*;

verus! {

/// A buffered message as the model sees it: its arrival instant and its
/// payload.
pub type Entry = (u128, Seq<u8>);

/// The slot that an endpoint with id `own` keeps for the peer `peer`: ids
/// below its own keep their number, ids above move down by one.
pub open spec fn peer_slot(own: int, peer: int) -> int {
    if peer < own {
        peer
    } else {
        peer - 1
    }
}

/// The peer that the slot `slot` of the endpoint `own` stands for.
pub open spec fn slot_peer(own: int, slot: int) -> int {
    if slot < own {
        slot
    } else {
        slot + 1
    }
}

/// The instant at which a message that arrives at `arrival` starts to move
/// over a link that is busy until `next_vacancy`.
pub open spec fn transfer_start(next_vacancy: int, arrival: int) -> int {
    if next_vacancy >= arrival {
        next_vacancy
    } else {
        arrival
    }
}

/// The instant at which a transfer of `len` bytes that began at `start` is
/// over.
pub open spec fn transfer_end(start: int, nanos_per_byte: int, len: int) -> int {
    start + nanos_per_byte * len
}

/// The instant at which byte number `k` (counted from zero) of a transfer
/// that began at `start` is released to the reader.
pub open spec fn release_instant(start: int, nanos_per_byte: int, k: int) -> int {
    start + nanos_per_byte * (k + 1)
}

/// The observable state of one endpoint.
pub struct EndpointView {
    /// The party's own id.
    pub id: nat,
    /// The reorder buffers by slot, each oldest first.
    pub buffers: Seq<Seq<Entry>>,
    /// The bytes sent so far, by slot.
    pub sent_bytes: Seq<nat>,
    /// The propagation delay of every link, in nanoseconds.
    pub latency: nat,
    /// The time one byte occupies the inbound link, in nanoseconds.
    pub nanos_per_byte: nat,
    /// The instant at which the inbound link is free again.
    pub next_vacancy: nat,
}

impl EndpointView {
    /// The number of parties in the network.
    pub open spec fn n_parties(self) -> nat {
        self.buffers.len() + 1
    }

    /// One slot per peer in both tables, and an id within the network.
    pub open spec fn wf(self) -> bool {
        &&& self.id < self.n_parties()
        &&& self.sent_bytes.len() == self.buffers.len()
    }

    /// `peer` is another party of the network.
    pub open spec fn is_peer(self, peer: int) -> bool {
        0 <= peer < self.n_parties() && peer != self.id
    }

    /// The messages of `peer` that were pulled but not yet asked for.
    pub open spec fn buffered(self, peer: int) -> Seq<Entry> {
        self.buffers[peer_slot(self.id as int, peer)]
    }

    /// The bytes sent to `peer` so far.
    pub open spec fn sent_to(self, peer: int) -> nat {
        self.sent_bytes[peer_slot(self.id as int, peer)]
    }

    /// Nothing buffered and nothing sent.
    pub open spec fn is_fresh(self) -> bool {
        &&& forall|s: int| 0 <= s < self.buffers.len() ==> #[trigger] self.buffers[s].len() == 0
        &&& forall|s: int| 0 <= s < self.sent_bytes.len() ==> #[trigger] self.sent_bytes[s] == 0
    }

    /// The state after `len` bytes went to `to`.
    pub open spec fn after_send(self, to: int, len: nat) -> EndpointView {
        let slot = peer_slot(self.id as int, to);
        EndpointView { sent_bytes: self.sent_bytes.update(slot, self.sent_bytes[slot] + len), ..self }
    }

    /// The state after `len` bytes went to every peer.
    pub open spec fn after_broadcast(self, len: nat) -> EndpointView {
        EndpointView {
            sent_bytes: Seq::new(self.sent_bytes.len(), |s: int| self.sent_bytes[s] + len),
            ..self
        }
    }

    /// The state after a message of `from` was put behind its buffer.
    pub open spec fn after_buffering(self, from: int, entry: Entry) -> EndpointView {
        let slot = peer_slot(self.id as int, from);
        EndpointView { buffers: self.buffers.update(slot, self.buffers[slot].push(entry)), ..self }
    }

    /// The state after the oldest buffered message of `from` was taken out.
    pub open spec fn after_unbuffering(self, from: int) -> EndpointView {
        let slot = peer_slot(self.id as int, from);
        EndpointView { buffers: self.buffers.update(slot, self.buffers[slot].skip(1)), ..self }
    }

    /// The end of the transfer of a message of `len` bytes that arrives at
    /// `arrival`.
    pub open spec fn vacancy_after(self, arrival: int, len: nat) -> int {
        transfer_end(
            transfer_start(self.next_vacancy as int, arrival),
            self.nanos_per_byte as int,
            len as int,
        )
    }

    /// The instants of that transfer can be held in 128 bits.
    pub open spec fn transfer_fits(self, arrival: int, len: nat) -> bool {
        self.vacancy_after(arrival, len) <= u128::MAX
    }

    /// The state after that message has taken the inbound link.
    pub open spec fn after_transfer(self, arrival: int, len: nat) -> EndpointView {
        EndpointView { next_vacancy: self.vacancy_after(arrival, len) as nat, ..self }
    }
}

/// The slot mapping is one-to-one from the peers of `own` onto the slots
/// `0..n - 1`, and `slot_peer` is its inverse.
pub proof fn lemma_peer_slot_bijective(own: int, n: int)
    requires
        0 <= own < n,
    ensures
        forall|p: int|
            0 <= p < n && p != own ==> 0 <= #[trigger] peer_slot(own, p) < n - 1 && slot_peer(
                own,
                peer_slot(own, p),
            ) == p,
        forall|s: int|
            0 <= s < n - 1 ==> 0 <= #[trigger] slot_peer(own, s) < n && slot_peer(own, s) != own
                && peer_slot(own, slot_peer(own, s)) == s,
        forall|p: int, q: int|
            0 <= p < n && 0 <= q < n && p != own && q != own && #[trigger] peer_slot(own, p)
                == #[trigger] peer_slot(own, q) ==> p == q,
{
}

} // verus!

//! The communication layer: message envelopes, the paced byte stream that a
//! receive hands out, and the endpoint through which one party sends to and
//! receives from its peers.

use crate::clock::Clock;
use crate::fifo::{
    entry_view, queue_add, queue_items, queue_new, queue_peek, queue_remove, queue_size,
};
use crate::model::{
    peer_slot, release_instant, slot_peer, transfer_end, transfer_start, EndpointView, Entry,
};
use crate::pipe::{Consumer, Producer};
use queues::Queue;
use vstd::prelude::*;
use vstd::slice::slice_to_vec;

verus! {

/// Why a send or a receive could not be completed.
#[derive(Clone, Copy, Debug, PartialEq, Eq)]
pub enum CommError {
    /// The pipe is broken: the worker at its other end is gone.
    Disconnected,
    /// An instant of the transfer cannot be held in 128 bits of nanoseconds.
    TimeOverflow,
    /// A message came in whose sender is no peer of this endpoint.
    UnknownSender,
}

/// A message under way: who sent it, what it carries, and the simulated
/// instant at which it reaches the far end of the link.
pub struct Message {
    pub arrival_time: u128,
    pub from_id: usize,
    pub contents: Vec<u8>,
}

impl Message {
    /// The message as a buffer entry.
    pub open spec fn entry(self) -> Entry {
        (self.arrival_time, self.contents@)
    }
}

/// The bytes of one received message, released one at a time and no faster
/// than the link carries them.
pub struct DelayedByteIterator {
    start_time: u128,
    bytes: Vec<u8>,
    position: usize,
    nanos_per_byte: u128,
}

impl View for DelayedByteIterator {
    type V = Seq<u8>;

    /// The bytes that are still to come.
    closed spec fn view(&self) -> Seq<u8> {
        self.bytes@.skip(self.position as int)
    }
}

impl DelayedByteIterator {
    /// The instant at which the transfer began.
    pub closed spec fn start_time(&self) -> u128 {
        self.start_time
    }

    /// The time each byte takes on the link.
    pub closed spec fn nanos_per_byte(&self) -> u128 {
        self.nanos_per_byte
    }

    /// The number of bytes handed out so far.
    pub closed spec fn yielded(&self) -> nat {
        self.position as nat
    }

    /// The instant at which the next byte is released, if one is left.
    pub open spec fn next_instant(&self) -> int {
        release_instant(
            self.start_time() as int,
            self.nanos_per_byte() as int,
            self.yielded() as int,
        )
    }

    /// The stream is within its bytes, and its last release instant can be
    /// held.
    pub closed spec fn wf(&self) -> bool {
        &&& self.position <= self.bytes.len()
        &&& transfer_end(
            self.start_time as int,
            self.nanos_per_byte as int,
            self.bytes.len() as int,
        ) <= u128::MAX
    }

    /// Every byte still to come is released at an instant that can be held,
    /// no earlier than the start of the transfer and no later than its end.
    pub proof fn lemma_releases_fit(&self, k: int)
        requires
            self.wf(),
            0 <= k < self@.len(),
        ensures
            self.start_time() <= release_instant(
                self.start_time() as int,
                self.nanos_per_byte() as int,
                self.yielded() + k,
            ) <= transfer_end(
                self.start_time() as int,
                self.nanos_per_byte() as int,
                (self.yielded() + self@.len()) as int,
            ) <= u128::MAX,
    {
        let npb = self.nanos_per_byte as int;
        let count = self.position as int + k + 1;
        let len = self.bytes.len() as int;
        assert(0 <= npb * count <= npb * len) by (nonlinear_arith)
            requires
                0 <= npb,
                0 < count <= len,
        ;
    }

    /// Creates the stream of `bytes` for a transfer that begins at
    /// `start_time`; byte `k` is released `k + 1` times `nanos_per_byte`
    /// later.
    pub fn new(bytes: Vec<u8>, start_time: u128, nanos_per_byte: u128) -> (stream: Self)
        requires
            transfer_end(start_time as int, nanos_per_byte as int, bytes.len() as int) <= u128::MAX,
        ensures
            stream.wf(),
            stream@ == bytes@,
            stream.yielded() == 0,
            stream.start_time() == start_time,
            stream.nanos_per_byte() == nanos_per_byte,
    {
        DelayedByteIterator { start_time, bytes, position: 0, nanos_per_byte }
    }

    /// The number of bytes still to come.
    pub fn remaining(&self) -> (n: usize)
        requires
            self.wf(),
        ensures
            n == self@.len(),
    {
        self.bytes.len() - self.position
    }

    /// Hands out the next byte together with the instant before which the
    /// reader may not see it; `None` once the stream is spent. Skipping the
    /// wait is the reader's business: the stream only tells the instant.
    pub fn next(&mut self) -> (released: Option<(u128, u8)>)
        requires
            old(self).wf(),
        ensures
            final(self).wf(),
            final(self).start_time() == old(self).start_time(),
            final(self).nanos_per_byte() == old(self).nanos_per_byte(),
            old(self)@.len() == 0 ==> released is None && *final(self) == *old(self),
            old(self)@.len() > 0 ==> old(self).next_instant() <= u128::MAX && released == Some(
                (old(self).next_instant() as u128, old(self)@[0]),
            ),
            old(self)@.len() > 0 ==> final(self)@ == old(self)@.skip(1),
            old(self)@.len() > 0 ==> final(self).yielded() == old(self).yielded() + 1,
    {
        if self.position >= self.bytes.len() {
            return None;
        }
        let byte: u8 = self.bytes[self.position];
        let count: u128 = self.position as u128 + 1;
        proof {
            let npb = self.nanos_per_byte as int;
            let len = self.bytes.len() as int;
            assert(npb * (count as int) <= npb * len) by (nonlinear_arith)
                requires
                    0 <= npb,
                    0 < count as int <= len,
            ;
            assert(0 <= npb * (count as int)) by (nonlinear_arith)
                requires
                    0 <= npb,
                    0 < count as int,
            ;
        }
        let wake_time: u128 = self.start_time + self.nanos_per_byte * count;
        proof {
            assert(self.bytes@.skip(self.position as int).skip(1) =~= self.bytes@.skip(
                self.position as int + 1,
            ));
        }
        self.position = self.position + 1;
        Some((wake_time, byte))
    }
}


impl DelayedByteIterator {
    /// The stream is untouched and carries `bytes` from `start` on, at
    /// `nanos_per_byte` each.
    pub open spec fn carries(&self, bytes: Seq<u8>, start: int, nanos_per_byte: nat) -> bool {
        &&& self.wf()
        &&& self@ == bytes
        &&& self.yielded() == 0
        &&& self.start_time() == start
        &&& self.nanos_per_byte() == nanos_per_byte
    }
}

/// What it means that the message `entry` takes the inbound link of an
/// endpoint in state `pre`: it starts at the later of its arrival and the
/// link's vacancy, holds the link for its length, and its bytes go to the
/// reader as a paced stream.
pub open spec fn starts(
    pre: EndpointView,
    post: EndpointView,
    entry: Entry,
    out: Result<Option<DelayedByteIterator>, CommError>,
) -> bool {
    &&& post == pre.after_transfer(entry.0 as int, entry.1.len())
    &&& out matches Ok(Some(stream)) && stream.carries(
        entry.1,
        transfer_start(pre.next_vacancy as int, entry.0 as int),
        pre.nanos_per_byte,
    )
}

/// What it means to hand the message `entry` to the reader of an endpoint in
/// state `pre`: the message takes the inbound link; where the instants of
/// its transfer cannot be held, nothing changes and the receive fails.
pub open spec fn delivers(
    pre: EndpointView,
    post: EndpointView,
    entry: Entry,
    out: Result<Option<DelayedByteIterator>, CommError>,
) -> bool {
    if pre.transfer_fits(entry.0 as int, entry.1.len()) {
        starts(pre, post, entry, out)
    } else {
        &&& post == pre
        &&& out matches Err(CommError::TimeOverflow)
    }
}

/// What a receive from `from` does when a message of `from` waits in its
/// buffer: the oldest is taken out and takes the link. Where the instants
/// of its transfer cannot be held, the receive fails and the message stays
/// where it is.
pub open spec fn serves_buffered(
    pre: EndpointView,
    post: EndpointView,
    from: int,
    out: Result<Option<DelayedByteIterator>, CommError>,
) -> bool {
    let head = pre.buffered(from)[0];
    if pre.transfer_fits(head.0 as int, head.1.len()) {
        starts(pre.after_unbuffering(from), post, head, out)
    } else {
        &&& post == pre
        &&& out matches Err(CommError::TimeOverflow)
    }
}

/// What an endpoint in state `pre` that waits for `from` does with a message
/// pulled from its inbound pipe. A message of `from` takes the link; one of
/// another peer goes behind that peer's buffer; one of a stranger is
/// refused. A message of `from` whose transfer cannot be timed is kept
/// behind the buffer of `from`, and the receive fails: no message of a peer
/// is dropped.
pub open spec fn handles(
    pre: EndpointView,
    post: EndpointView,
    from: int,
    sender: int,
    entry: Entry,
    out: Result<Option<DelayedByteIterator>, CommError>,
) -> bool {
    if !pre.is_peer(sender) {
        &&& post == pre
        &&& out matches Err(CommError::UnknownSender)
    } else if sender == from && pre.transfer_fits(entry.0 as int, entry.1.len()) {
        starts(pre, post, entry, out)
    } else if sender == from {
        &&& post == pre.after_buffering(sender, entry)
        &&& out matches Err(CommError::TimeOverflow)
    } else {
        &&& post == pre.after_buffering(sender, entry)
        &&& out matches Ok(None)
    }
}

/// The communication endpoint of one party: a producing end of the pipe of
/// every peer, the consuming end of its own pipe, one reorder buffer and one
/// sent-bytes counter per peer, and the state of its inbound link.
pub struct Channels {
    id: usize,
    senders: Vec<Producer>,
    receiver: Consumer,
    buffer: Vec<Queue<(u128, Vec<u8>)>>,
    sent_bytes: Vec<usize>,
    latency: u128,
    nanos_per_byte: u128,
    next_vacancy: u128,
    clock: Clock,
}

impl View for Channels {
    type V = EndpointView;

    closed spec fn view(&self) -> EndpointView {
        EndpointView {
            id: self.id as nat,
            buffers: Seq::new(self.buffer.len() as nat, |s: int| queue_items(self.buffer[s])),
            sent_bytes: Seq::new(self.sent_bytes.len() as nat, |s: int| self.sent_bytes[s] as nat),
            latency: self.latency as nat,
            nanos_per_byte: self.nanos_per_byte as nat,
            next_vacancy: self.next_vacancy as nat,
        }
    }
}

impl Channels {
    /// The party that the producing end kept for `peer` leads to.
    pub closed spec fn feeds(&self, peer: int) -> int {
        self.senders[peer_slot(self.id as int, peer)].target() as int
    }

    /// The party that the inbound pipe leads to.
    pub closed spec fn drains(&self) -> int {
        self.receiver.owner() as int
    }

    /// The clock that the endpoint reads: the one it was built with, for as
    /// long as it lives.
    pub closed spec fn shared_clock(&self) -> Clock {
        self.clock
    }

    /// One pipe, one buffer and one counter per peer, and an id within the
    /// network; the inbound pipe is the party's own, and the producing end
    /// in each slot leads to the peer that the slot stands for.
    pub closed spec fn wf(&self) -> bool {
        &&& self.senders.len() == self.buffer.len()
        &&& self.sent_bytes.len() == self.buffer.len()
        &&& self.id <= self.buffer.len()
        &&& self.receiver.owner() == self.id
        &&& forall|s: int|
            0 <= s < self.senders.len() ==> (#[trigger] self.senders[s]).target() == slot_peer(
                self.id as int,
                s,
            )
    }

    /// The inbound pipe of a well-formed endpoint is its own party's.
    pub proof fn lemma_inbound(&self)
        requires
            self.wf(),
        ensures
            self.drains() == self@.id,
    {
    }

    /// In a well-formed endpoint every pipe leads where it should: what is
    /// sent to a peer goes to that peer, and what comes in was sent to this
    /// party.
    pub proof fn lemma_wiring(&self, peer: int)
        requires
            self.wf(),
            self@.is_peer(peer),
        ensures
            self.feeds(peer) == peer,
            self.drains() == self@.id,
    {
        let slot = peer_slot(self.id as int, peer);
        assert(self.senders[slot].target() == slot_peer(self.id as int, slot));
    }

    /// A well-formed endpoint has a well-formed view whose numbers fit their
    /// machine types.
    pub proof fn lemma_view_wf(&self)
        requires
            self.wf(),
        ensures
            self@.wf(),
            self@.n_parties() <= usize::MAX + 1,
            self@.next_vacancy <= u128::MAX,
            self@.latency <= u128::MAX,
            self@.nanos_per_byte <= u128::MAX,
            forall|s: int| 0 <= s < self@.sent_bytes.len() ==> #[trigger] self@.sent_bytes[s] <= usize::MAX,
    {
    }

    /// Builds the endpoint of party `id` from the producing ends of its
    /// peers' pipes, in the order of their slots, and the consuming end of
    /// its own. The inbound link counts as vacant from the instant `now`.
    pub fn new_at(
        id: usize,
        senders: Vec<Producer>,
        receiver: Consumer,
        latency: u128,
        nanos_per_byte: u128,
        clock: Clock,
        now: u128,
    ) -> (endpoint: Self)
        requires
            id <= senders.len(),
            receiver.owner() == id,
            forall|s: int|
                0 <= s < senders.len() ==> (#[trigger] senders[s]).target() == slot_peer(
                    id as int,
                    s,
                ),
        ensures
            endpoint.wf(),
            endpoint@.id == id,
            endpoint@.n_parties() == senders.len() + 1,
            endpoint@.is_fresh(),
            endpoint@.latency == latency,
            endpoint@.nanos_per_byte == nanos_per_byte,
            endpoint@.next_vacancy == now,
            endpoint.shared_clock() == clock,
    {
        let sender_count: usize = senders.len();
        let mut buffer: Vec<Queue<(u128, Vec<u8>)>> = Vec::new();
        let mut sent_bytes: Vec<usize> = Vec::new();
        let mut slot: usize = 0;
        while slot < sender_count
            invariant
                slot <= sender_count,
                buffer.len() == slot,
                sent_bytes.len() == slot,
                forall|s: int| 0 <= s < slot ==> queue_items(#[trigger] buffer[s]).len() == 0,
                forall|s: int| 0 <= s < slot ==> #[trigger] sent_bytes[s] == 0,
            decreases sender_count - slot,
        {
            buffer.push(queue_new());
            sent_bytes.push(0);
            slot = slot + 1;
        }
        Channels {
            id,
            senders,
            receiver,
            buffer,
            sent_bytes,
            latency,
            nanos_per_byte,
            next_vacancy: now,
            clock,
        }
    }

    /// Builds the endpoint of party `id` as `new_at` does, with the inbound
    /// link vacant from the moment of the call, as `clock` reads it.
    pub fn new(
        id: usize,
        senders: Vec<Producer>,
        receiver: Consumer,
        latency: u128,
        nanos_per_byte: u128,
        clock: Clock,
    ) -> (endpoint: Self)
        requires
            id <= senders.len(),
            receiver.owner() == id,
            forall|s: int|
                0 <= s < senders.len() ==> (#[trigger] senders[s]).target() == slot_peer(
                    id as int,
                    s,
                ),
        ensures
            endpoint.wf(),
            endpoint@.id == id,
            endpoint@.n_parties() == senders.len() + 1,
            endpoint@.is_fresh(),
            endpoint@.latency == latency,
            endpoint@.nanos_per_byte == nanos_per_byte,
            endpoint.shared_clock() == clock,
    {
        let now: u128 = clock.now();
        Channels::new_at(id, senders, receiver, latency, nanos_per_byte, clock, now)
    }

    /// The party's own id.
    pub fn id(&self) -> (id: usize)
        ensures
            id == self@.id,
    {
        self.id
    }

    /// The number of parties in the network.
    pub fn party_count(&self) -> (n: usize)
        requires
            self.wf(),
            self@.n_parties() <= usize::MAX,
        ensures
            n == self@.n_parties(),
    {
        self.buffer.len() + 1
    }

    /// The number of other parties in the network.
    pub fn peer_count(&self) -> (n: usize)
        requires
            self.wf(),
        ensures
            n + 1 == self@.n_parties(),
    {
        self.buffer.len()
    }

    /// The instant at which the inbound link is free again.
    pub fn next_vacancy(&self) -> (instant: u128)
        ensures
            instant == self@.next_vacancy,
    {
        self.next_vacancy
    }

    /// The propagation delay of the links, in nanoseconds.
    pub fn latency(&self) -> (nanos: u128)
        ensures
            nanos == self@.latency,
    {
        self.latency
    }

    /// The time one byte occupies the inbound link, in nanoseconds.
    pub fn nanos_per_byte(&self) -> (nanos: u128)
        ensures
            nanos == self@.nanos_per_byte,
    {
        self.nanos_per_byte
    }

    /// The clock that this endpoint and its peers stamp messages by.
    pub fn clock(&self) -> (clock: Clock)
        ensures
            clock == self.shared_clock(),
    {
        self.clock
    }

    /// Whether `peer` is another party of this network.
    pub fn is_peer(&self, peer: usize) -> (yes: bool)
        requires
            self.wf(),
        ensures
            yes == self@.is_peer(peer as int),
    {
        peer <= self.buffer.len() && peer != self.id
    }

    /// The slot that this endpoint keeps for `peer`.
    pub fn reduced_id(&self, peer: usize) -> (slot: usize)
        requires
            self.wf(),
            self@.is_peer(peer as int),
        ensures
            slot == peer_slot(self@.id as int, peer as int),
            slot < self@.buffers.len(),
    {
        if peer < self.id {
            peer
        } else {
            peer - 1
        }
    }

    /// The bytes sent to `peer` so far.
    pub fn sent_bytes(&self, peer: usize) -> (count: usize)
        requires
            self.wf(),
            self@.is_peer(peer as int),
        ensures
            count == self@.sent_to(peer as int),
    {
        let slot: usize = self.reduced_id(peer);
        self.sent_bytes[slot]
    }

    /// The number of messages of `peer` that wait in its reorder buffer.
    pub fn buffered_count(&self, peer: usize) -> (count: usize)
        requires
            self.wf(),
            self@.is_peer(peer as int),
        ensures
            count == self@.buffered(peer as int).len(),
    {
        let slot: usize = self.reduced_id(peer);
        queue_size(&self.buffer[slot])
    }

    /// Counts `byte_count` more bytes as sent to `to_id`.
    pub fn add_sent_bytes(&mut self, byte_count: usize, to_id: &usize)
        requires
            old(self).wf(),
            old(self)@.is_peer(*to_id as int),
            old(self)@.sent_to(*to_id as int) + byte_count <= usize::MAX,
        ensures
            final(self).wf(),
            final(self).shared_clock() == old(self).shared_clock(),
            final(self)@ == old(self)@.after_send(*to_id as int, byte_count as nat),
    {
        let slot: usize = self.reduced_id(*to_id);
        let so_far: usize = self.sent_bytes[slot];
        self.sent_bytes.set(slot, so_far + byte_count);
        proof {
            assert(final(self)@.sent_bytes =~= old(self)@.after_send(
                *to_id as int,
                byte_count as nat,
            ).sent_bytes);
            assert(final(self)@.buffers =~= old(self)@.buffers);
        }
    }

    /// Wraps `message` for the wire: sent by this party at `now`, it arrives
    /// one latency later. `None` where that instant cannot be held.
    pub fn envelope(&self, message: &[u8], now: u128) -> (wrapped: Option<Message>)
        ensures
            now + self@.latency > u128::MAX ==> wrapped is None,
            now + self@.latency <= u128::MAX ==> wrapped is Some && wrapped.unwrap().from_id
                == self@.id && wrapped.unwrap().contents@ == message@
                && wrapped.unwrap().arrival_time == now + self@.latency,
    {
        match now.checked_add(self.latency) {
            Some(arrival_time) => Some(
                Message { arrival_time, from_id: self.id, contents: slice_to_vec(message) },
            ),
            None => None,
        }
    }
}


impl Channels {
    /// Settles a send of `byte_count` bytes to `to_id` once the pipe has
    /// answered: a message that the pipe took is counted, once, for that
    /// peer; one that it refused is not counted, and the send has failed on
    /// a broken link.
    pub fn settle_send(&mut self, delivered: bool, byte_count: usize, to_id: &usize) -> (sent:
        Result<(), CommError>)
        requires
            old(self).wf(),
            old(self)@.is_peer(*to_id as int),
            old(self)@.sent_to(*to_id as int) + byte_count <= usize::MAX,
        ensures
            final(self).wf(),
            final(self).shared_clock() == old(self).shared_clock(),
            delivered ==> sent is Ok && final(self)@ == old(self)@.after_send(
                *to_id as int,
                byte_count as nat,
            ),
            !delivered ==> (sent matches Err(CommError::Disconnected)) && final(self)@ == old(
                self,
            )@,
    {
        if delivered {
            self.add_sent_bytes(byte_count, to_id);
            Ok(())
        } else {
            Err(CommError::Disconnected)
        }
    }

    /// Settles a broadcast of `byte_count` bytes once every pipe has
    /// answered, or one has failed: without a failure the bytes are counted
    /// once for each peer; with one nothing is counted and the failure is
    /// the answer.
    pub fn settle_broadcast(&mut self, failure: Option<CommError>, byte_count: usize) -> (sent:
        Result<(), CommError>)
        requires
            old(self).wf(),
            forall|s: int|
                0 <= s < old(self)@.sent_bytes.len() ==> #[trigger] old(self)@.sent_bytes[s]
                    + byte_count <= usize::MAX,
        ensures
            final(self).wf(),
            final(self).shared_clock() == old(self).shared_clock(),
            failure is None ==> sent is Ok && final(self)@ == old(self)@.after_broadcast(
                byte_count as nat,
            ),
            failure is Some ==> sent == Err::<(), CommError>(failure.unwrap()) && final(self)@
                == old(self)@,
    {
        match failure {
            Some(error) => Err(error),
            None => {
                let peers: usize = self.sent_bytes.len();
                let mut counted: usize = 0;
                while counted < peers
                    invariant
                        counted <= peers,
                        peers == self.sent_bytes.len(),
                        self.wf(),
                        self.id == old(self).id,
                        self.buffer == old(self).buffer,
                        self.latency == old(self).latency,
                        self.nanos_per_byte == old(self).nanos_per_byte,
                        self.next_vacancy == old(self).next_vacancy,
                        self.clock == old(self).clock,
                        self.sent_bytes.len() == old(self).sent_bytes.len(),
                        forall|s: int|
                            0 <= s < counted ==> #[trigger] self.sent_bytes[s] == old(
                                self,
                            ).sent_bytes[s] + byte_count,
                        forall|s: int|
                            counted <= s < peers ==> #[trigger] self.sent_bytes[s] == old(
                                self,
                            ).sent_bytes[s],
                        forall|s: int|
                            0 <= s < old(self)@.sent_bytes.len() ==> #[trigger] old(
                                self,
                            )@.sent_bytes[s] + byte_count <= usize::MAX,
                    decreases peers - counted,
                {
                    assert(old(self)@.sent_bytes[counted as int] == old(
                        self,
                    ).sent_bytes[counted as int]);
                    let so_far: usize = self.sent_bytes[counted];
                    self.sent_bytes.set(counted, so_far + byte_count);
                    counted = counted + 1;
                }
                proof {
                    assert(self@.sent_bytes =~= old(self)@.after_broadcast(
                        byte_count as nat,
                    ).sent_bytes);
                }
                Ok(())
            },
        }
    }

    /// Sends `message` to the party `to_id` as of the instant `now`: the
    /// envelope goes onto that party's pipe and the bytes are counted, each
    /// once. Where the arrival instant cannot be held nothing is sent; where
    /// the pipe is broken nothing is counted.
    pub fn send_at(&mut self, message: &[u8], to_id: &usize, now: u128) -> (sent: Result<
        (),
        CommError,
    >)
        requires
            old(self).wf(),
            old(self)@.is_peer(*to_id as int),
            old(self)@.sent_to(*to_id as int) + message@.len() <= usize::MAX,
        ensures
            final(self).wf(),
            final(self).shared_clock() == old(self).shared_clock(),
            now + old(self)@.latency > u128::MAX ==> sent matches Err(CommError::TimeOverflow),
            now + old(self)@.latency <= u128::MAX ==> sent is Ok || sent matches Err(
                CommError::Disconnected,
            ),
            sent is Ok ==> final(self)@ == old(self)@.after_send(*to_id as int, message@.len()),
            sent is Err ==> final(self)@ == old(self)@,
    {
        let wrapped = self.envelope(message, now);
        match wrapped {
            None => Err(CommError::TimeOverflow),
            Some(envelope) => {
                let slot: usize = self.reduced_id(*to_id);
                let delivered: bool = self.senders[slot].push(envelope);
                self.settle_send(delivered, message.len(), to_id)
            },
        }
    }

    /// Sends `message` to the party `to_id` as of the present moment, and
    /// counts its bytes as sent to that party. Whether it succeeds rests with
    /// the clock and the peer; on failure nothing is counted.
    pub fn send(&mut self, message: &[u8], to_id: &usize) -> (sent: Result<(), CommError>)
        requires
            old(self).wf(),
            old(self)@.is_peer(*to_id as int),
            old(self)@.sent_to(*to_id as int) + message@.len() <= usize::MAX,
        ensures
            final(self).wf(),
            final(self).shared_clock() == old(self).shared_clock(),
            sent is Ok ==> final(self)@ == old(self)@.after_send(*to_id as int, message@.len()),
            sent is Err ==> final(self)@ == old(self)@,
            !(sent matches Err(CommError::UnknownSender)),
    {
        let now: u128 = self.clock.now();
        self.send_at(message, to_id, now)
    }

    /// Sends `message` to every peer as of the instant `now`, and then
    /// counts its bytes once for each peer. Where the arrival instant cannot
    /// be held nothing is sent; where a pipe is broken nothing is counted.
    /// With no peer there is nothing to send, and nothing can fail.
    pub fn broadcast_at(&mut self, message: &[u8], now: u128) -> (sent: Result<(), CommError>)
        requires
            old(self).wf(),
            forall|s: int|
                0 <= s < old(self)@.sent_bytes.len() ==> #[trigger] old(self)@.sent_bytes[s]
                    + message@.len() <= usize::MAX,
        ensures
            final(self).wf(),
            final(self).shared_clock() == old(self).shared_clock(),
            old(self)@.n_parties() == 1 ==> sent is Ok,
            old(self)@.n_parties() > 1 && now + old(self)@.latency > u128::MAX ==> (
            sent matches Err(CommError::TimeOverflow)),
            now + old(self)@.latency <= u128::MAX ==> sent is Ok || sent matches Err(
                CommError::Disconnected,
            ),
            sent is Ok ==> final(self)@ == old(self)@.after_broadcast(message@.len()),
            sent is Err ==> final(self)@ == old(self)@,
    {
        let peers: usize = self.senders.len();
        let mut failure: Option<CommError> = None;
        let mut slot: usize = 0;
        while slot < peers && failure.is_none()
            invariant
                slot <= peers,
                peers == self.senders.len(),
                *self == *old(self),
                self.wf(),
                failure is Some ==> slot > 0,
                now + self@.latency > u128::MAX && slot > 0 ==> failure == Some(
                    CommError::TimeOverflow,
                ),
                now + self@.latency <= u128::MAX ==> failure is None || failure == Some(
                    CommError::Disconnected,
                ),
            decreases peers - slot,
        {
            match self.envelope(message, now) {
                None => {
                    failure = Some(CommError::TimeOverflow);
                },
                Some(envelope) => {
                    if !self.senders[slot].push(envelope) {
                        failure = Some(CommError::Disconnected);
                    }
                },
            }
            slot = slot + 1;
        }
        self.settle_broadcast(failure, message.len())
    }

    /// Sends `message` to every peer as of the present moment, and counts
    /// its bytes once for each peer. Whether it succeeds rests with the
    /// clock and the peers; on failure nothing is counted.
    pub fn broadcast(&mut self, message: &[u8]) -> (sent: Result<(), CommError>)
        requires
            old(self).wf(),
            forall|s: int|
                0 <= s < old(self)@.sent_bytes.len() ==> #[trigger] old(self)@.sent_bytes[s]
                    + message@.len() <= usize::MAX,
        ensures
            final(self).wf(),
            final(self).shared_clock() == old(self).shared_clock(),
            sent is Ok ==> final(self)@ == old(self)@.after_broadcast(message@.len()),
            sent is Err ==> final(self)@ == old(self)@,
            !(sent matches Err(CommError::UnknownSender)),
            old(self)@.n_parties() == 1 ==> sent is Ok,
    {
        let now: u128 = self.clock.now();
        self.broadcast_at(message, now)
    }

    /// Takes the oldest message of `from_id` out of its reorder buffer, if
    /// one waits there.
    pub fn take_buffered(&mut self, from_id: &usize) -> (taken: Option<(u128, Vec<u8>)>)
        requires
            old(self).wf(),
            old(self)@.is_peer(*from_id as int),
        ensures
            final(self).wf(),
            final(self).shared_clock() == old(self).shared_clock(),
            old(self)@.buffered(*from_id as int).len() == 0 ==> taken is None && final(self)@
                == old(self)@,
            old(self)@.buffered(*from_id as int).len() > 0 ==> taken is Some && entry_view(
                taken.unwrap(),
            ) == old(self)@.buffered(*from_id as int)[0] && final(self)@ == old(
                self,
            )@.after_unbuffering(*from_id as int),
    {
        let slot: usize = self.reduced_id(*from_id);
        let taken = queue_remove(&mut self.buffer[slot]);
        proof {
            if old(self)@.buffered(*from_id as int).len() == 0 {
                assert(self@.buffers =~= old(self)@.buffers);
            } else {
                assert(self@.buffers =~= old(self)@.after_unbuffering(*from_id as int).buffers);
            }
            assert(self@.sent_bytes =~= old(self)@.sent_bytes);
        }
        taken
    }

    /// Puts a message of `sender` behind that peer's reorder buffer.
    pub fn put_buffered(&mut self, sender: usize, arrival_time: u128, contents: Vec<u8>)
        requires
            old(self).wf(),
            old(self)@.is_peer(sender as int),
        ensures
            final(self).wf(),
            final(self).shared_clock() == old(self).shared_clock(),
            final(self)@ == old(self)@.after_buffering(sender as int, (arrival_time, contents@)),
    {
        let slot: usize = self.reduced_id(sender);
        queue_add(&mut self.buffer[slot], arrival_time, contents);
        proof {
            assert(self@.buffers =~= old(self)@.after_buffering(
                sender as int,
                (arrival_time, contents@),
            ).buffers);
            assert(self@.sent_bytes =~= old(self)@.sent_bytes);
        }
    }

    /// Whether the transfer of a message of `len` bytes that arrives at
    /// `arrival_time` ends at an instant that can be held.
    pub fn transfer_fits(&self, arrival_time: u128, len: usize) -> (fits: bool)
        ensures
            fits == self@.transfer_fits(arrival_time as int, len as nat),
    {
        let start: u128 = if self.next_vacancy >= arrival_time {
            self.next_vacancy
        } else {
            arrival_time
        };
        match self.nanos_per_byte.checked_mul(len as u128) {
            None => false,
            Some(duration) => start.checked_add(duration).is_some(),
        }
    }

    /// Lets a matched message take the inbound link: it starts at the later
    /// of its arrival and the link's vacancy, and the link is taken until its
    /// last byte is through. The bytes come back as a paced stream.
    pub fn start_transfer(&mut self, arrival_time: u128, bytes: Vec<u8>) -> (stream:
        DelayedByteIterator)
        requires
            old(self).wf(),
            old(self)@.transfer_fits(arrival_time as int, bytes@.len()),
        ensures
            final(self).wf(),
            final(self).shared_clock() == old(self).shared_clock(),
            final(self)@ == old(self)@.after_transfer(arrival_time as int, bytes@.len()),
            stream.carries(
                bytes@,
                transfer_start(old(self)@.next_vacancy as int, arrival_time as int),
                old(self)@.nanos_per_byte,
            ),
    {
        let start_time: u128 = if self.next_vacancy >= arrival_time {
            self.next_vacancy
        } else {
            arrival_time
        };
        proof {
            assert(0 <= (self.nanos_per_byte as int) * (bytes.len() as int)) by (nonlinear_arith);
        }
        self.next_vacancy = start_time + self.nanos_per_byte * (bytes.len() as u128);
        proof {
            assert(self@.buffers =~= old(self)@.buffers);
            assert(self@.sent_bytes =~= old(self)@.sent_bytes);
        }
        DelayedByteIterator::new(bytes, start_time, self.nanos_per_byte)
    }

    /// Hands a message that the caller holds to the reader, or fails where
    /// its transfer would end past the last instant that can be held; the
    /// endpoint then keeps no trace of it.
    pub fn deliver(&mut self, arrival_time: u128, bytes: Vec<u8>) -> (out: Result<
        Option<DelayedByteIterator>,
        CommError,
    >)
        requires
            old(self).wf(),
        ensures
            final(self).wf(),
            final(self).shared_clock() == old(self).shared_clock(),
            delivers(old(self)@, final(self)@, (arrival_time, bytes@), out),
    {
        if self.transfer_fits(arrival_time, bytes.len()) {
            Ok(Some(self.start_transfer(arrival_time, bytes)))
        } else {
            Err(CommError::TimeOverflow)
        }
    }

    /// Decides what becomes of a message pulled from the inbound pipe while
    /// the reader waits for `from_id`: delivered if `from_id` sent it, kept
    /// behind its sender's buffer if another peer did. A message of
    /// `from_id` whose transfer cannot be timed is kept as well, and the
    /// answer is the failure.
    pub fn handle_pulled(&mut self, from_id: &usize, message: Message) -> (out: Result<
        Option<DelayedByteIterator>,
        CommError,
    >)
        requires
            old(self).wf(),
            old(self)@.is_peer(*from_id as int),
        ensures
            final(self).wf(),
            final(self).shared_clock() == old(self).shared_clock(),
            handles(
                old(self)@,
                final(self)@,
                *from_id as int,
                message.from_id as int,
                message.entry(),
                out,
            ),
    {
        if !self.is_peer(message.from_id) {
            Err(CommError::UnknownSender)
        } else if message.from_id != *from_id {
            self.put_buffered(message.from_id, message.arrival_time, message.contents);
            Ok(None)
        } else if self.transfer_fits(message.arrival_time, message.contents.len()) {
            Ok(Some(self.start_transfer(message.arrival_time, message.contents)))
        } else {
            self.put_buffered(message.from_id, message.arrival_time, message.contents);
            Err(CommError::TimeOverflow)
        }
    }

    /// Receives from the party `from_id`, one pull at a time. If a message
    /// of that party waits in its buffer, the oldest is delivered. Otherwise
    /// one message is pulled from the inbound pipe, which blocks until there
    /// is one, and is delivered if `from_id` sent it. A message of another
    /// peer goes behind that peer's buffer, and the answer is `Ok(None)`:
    /// the caller asks again, as often as it takes. No message of a peer is
    /// dropped, not even where the receive fails, and the messages of one
    /// sender come out in the order they went in.
    pub fn receive(&mut self, from_id: &usize) -> (out: Result<
        Option<DelayedByteIterator>,
        CommError,
    >)
        requires
            old(self).wf(),
            old(self)@.is_peer(*from_id as int),
        ensures
            final(self).wf(),
            final(self).shared_clock() == old(self).shared_clock(),
            old(self)@.buffered(*from_id as int).len() > 0 ==> serves_buffered(
                old(self)@,
                final(self)@,
                *from_id as int,
                out,
            ),
            old(self)@.buffered(*from_id as int).len() == 0 ==> (final(self)@ == old(self)@
                && out matches Err(CommError::Disconnected)) || exists|sender: int, entry: Entry|
                handles(old(self)@, final(self)@, *from_id as int, sender, entry, out),
    {
        let slot: usize = self.reduced_id(*from_id);
        match queue_peek(&self.buffer[slot]) {
            Some(head) => {
                assert(entry_view(head) == old(self)@.buffered(*from_id as int)[0]);
                if !self.transfer_fits(head.0, head.1.len()) {
                    return Err(CommError::TimeOverflow);
                }
                match self.take_buffered(from_id) {
                    Some((arrival_time, bytes)) => self.deliver(arrival_time, bytes),
                    None => {
                        proof {
                            assert(false);
                        }
                        Err(CommError::Disconnected)
                    },
                }
            },
            None => match self.receiver.pull() {
                None => Err(CommError::Disconnected),
                Some(message) => {
                    let ghost sender = message.from_id as int;
                    let ghost entry = message.entry();
                    let out = self.handle_pulled(from_id, message);
                    proof {
                        assert(handles(
                            old(self)@,
                            self@,
                            *from_id as int,
                            sender,
                            entry,
                            out,
                        ));
                    }
                    out
                },
            },
        }
    }
}

} // verus!

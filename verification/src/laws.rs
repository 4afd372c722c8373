//! What holds of the demultiplexing and of the link model, whatever the
//! order in which the peers' messages come in.

use crate::comm::{handles, serves_buffered, starts, CommError, DelayedByteIterator};
use crate::model::{release_instant, transfer_end, transfer_start, EndpointView, Entry};
use vstd::prelude::*;

verus! {

/// A message as it lies on an inbound pipe.
pub struct Envelope {
    pub sender: int,
    pub entry: Entry,
}

/// The messages of `peer` on the pipe, in the order in which they were sent.
pub open spec fn sent_by(wire: Seq<Envelope>, peer: int) -> Seq<Entry>
    decreases wire.len(),
{
    if wire.len() == 0 {
        Seq::empty()
    } else if wire[0].sender == peer {
        seq![wire[0].entry] + sent_by(wire.skip(1), peer)
    } else {
        sent_by(wire.skip(1), peer)
    }
}

/// Every message of `peer` that the reader has not been handed yet: those
/// in its reorder buffer, then those still on the pipe.
pub open spec fn pending(endpoint: EndpointView, wire: Seq<Envelope>, peer: int) -> Seq<Entry> {
    endpoint.buffered(peer) + sent_by(wire, peer)
}

/// Every message on the pipe comes from a peer of the endpoint.
pub open spec fn from_peers(endpoint: EndpointView, wire: Seq<Envelope>) -> bool {
    forall|i: int| 0 <= i < wire.len() ==> endpoint.is_peer((#[trigger] wire[i]).sender)
}

/// How a receive ends: the message matched, if the wait ever ends, and what
/// is left in the endpoint and on the pipe.
pub struct Reception {
    pub matched: Option<Entry>,
    pub endpoint: EndpointView,
    pub wire: Seq<Envelope>,
}

/// A whole receive from `peer`: the buffer of `peer` is consulted first;
/// failing that, messages are pulled from the pipe, and those of other
/// peers buffered, until one of `peer` shows up.
pub open spec fn receive_from(endpoint: EndpointView, wire: Seq<Envelope>, peer: int) -> Reception
    decreases wire.len(),
{
    if endpoint.buffered(peer).len() > 0 {
        Reception {
            matched: Some(endpoint.buffered(peer)[0]),
            endpoint: endpoint.after_unbuffering(peer),
            wire,
        }
    } else if wire.len() == 0 {
        Reception { matched: None, endpoint, wire }
    } else if wire[0].sender == peer {
        Reception { matched: Some(wire[0].entry), endpoint, wire: wire.skip(1) }
    } else {
        receive_from(endpoint.after_buffering(wire[0].sender, wire[0].entry), wire.skip(1), peer)
    }
}

/// The messages handed to the reader for `peer` when it asks for the peers
/// in `asks`, one after the other. A receive that waits forever ends the run.
pub open spec fn answers_for(
    endpoint: EndpointView,
    wire: Seq<Envelope>,
    asks: Seq<int>,
    peer: int,
) -> Seq<Entry>
    decreases asks.len(),
{
    if asks.len() == 0 {
        Seq::empty()
    } else {
        let first = receive_from(endpoint, wire, asks[0]);
        match first.matched {
            None => Seq::empty(),
            Some(entry) => {
                let rest = answers_for(first.endpoint, first.wire, asks.skip(1), peer);
                if asks[0] == peer {
                    seq![entry] + rest
                } else {
                    rest
                }
            },
        }
    }
}

/// Buffering a message of one peer leaves what is buffered for every other
/// peer as it was, and keeps the endpoint's shape.
pub proof fn lemma_buffering_frames(endpoint: EndpointView, sender: int, entry: Entry, peer: int)
    requires
        endpoint.wf(),
        endpoint.is_peer(sender),
        endpoint.is_peer(peer),
    ensures
        endpoint.after_buffering(sender, entry).wf(),
        endpoint.after_buffering(sender, entry).id == endpoint.id,
        endpoint.after_buffering(sender, entry).n_parties() == endpoint.n_parties(),
        endpoint.after_buffering(sender, entry).buffered(sender) == endpoint.buffered(sender).push(
            entry,
        ),
        peer != sender ==> endpoint.after_buffering(sender, entry).buffered(peer)
            == endpoint.buffered(peer),
{
}

/// Receiving from a peer hands out the oldest message of that peer that is
/// still pending, keeps its later messages pending in their order, and
/// leaves the pending messages of every other peer untouched, however the
/// messages of the peers are interleaved on the pipe.
pub proof fn lemma_receive_is_fifo(endpoint: EndpointView, wire: Seq<Envelope>, peer: int)
    requires
        endpoint.wf(),
        endpoint.is_peer(peer),
        from_peers(endpoint, wire),
    ensures
        ({
            let r = receive_from(endpoint, wire, peer);
            let waiting = pending(endpoint, wire, peer);
            &&& r.endpoint.wf()
            &&& r.endpoint.id == endpoint.id
            &&& r.endpoint.n_parties() == endpoint.n_parties()
            &&& from_peers(r.endpoint, r.wire)
            &&& waiting.len() == 0 ==> r.matched is None
            &&& waiting.len() > 0 ==> r.matched == Some(waiting[0]) && pending(
                r.endpoint,
                r.wire,
                peer,
            ) == waiting.skip(1)
            &&& forall|other: int|
                endpoint.is_peer(other) && other != peer ==> #[trigger] pending(
                    r.endpoint,
                    r.wire,
                    other,
                ) == pending(endpoint, wire, other)
        }),
    decreases wire.len(),
{
    let r = receive_from(endpoint, wire, peer);
    let waiting = pending(endpoint, wire, peer);
    if endpoint.buffered(peer).len() > 0 {
        let after = endpoint.after_unbuffering(peer);
        assert(after.buffered(peer) == endpoint.buffered(peer).skip(1));
        assert(pending(after, wire, peer) =~= waiting.skip(1));
        assert forall|other: int| endpoint.is_peer(other) && other != peer implies #[trigger] pending(
            after,
            wire,
            other,
        ) == pending(endpoint, wire, other) by {
            assert(after.buffered(other) == endpoint.buffered(other));
        }
    } else if wire.len() == 0 {
        assert(waiting =~= Seq::<Entry>::empty());
    } else if wire[0].sender == peer {
        let rest = wire.skip(1);
        assert(waiting =~= seq![wire[0].entry] + sent_by(rest, peer));
        assert(pending(endpoint, rest, peer) =~= waiting.skip(1));
        assert forall|i: int| 0 <= i < rest.len() implies endpoint.is_peer(
            (#[trigger] rest[i]).sender,
        ) by {
            assert(rest[i] == wire[i + 1]);
        }
    } else {
        let sender = wire[0].sender;
        let rest = wire.skip(1);
        let after = endpoint.after_buffering(sender, wire[0].entry);
        assert(endpoint.is_peer(sender));
        lemma_buffering_frames(endpoint, sender, wire[0].entry, peer);
        assert forall|i: int| 0 <= i < rest.len() implies after.is_peer(
            (#[trigger] rest[i]).sender,
        ) by {
            assert(rest[i] == wire[i + 1]);
        }
        lemma_receive_is_fifo(after, rest, peer);
        assert(pending(after, rest, peer) =~= waiting);
        assert forall|other: int| endpoint.is_peer(other) && other != peer implies #[trigger] pending(
            r.endpoint,
            r.wire,
            other,
        ) == pending(endpoint, wire, other) by {
            lemma_buffering_frames(endpoint, sender, wire[0].entry, other);
            assert(after.is_peer(other));
            assert(pending(r.endpoint, r.wire, other) == pending(after, rest, other));
            assert(pending(after, rest, other) =~= pending(endpoint, wire, other));
        }
    }
}

/// Whatever peers the reader asks for and in whatever order, the messages
/// it is handed for one peer are the first of those that this peer sent, in
/// the order in which it sent them.
pub proof fn lemma_answers_in_send_order(
    endpoint: EndpointView,
    wire: Seq<Envelope>,
    asks: Seq<int>,
    peer: int,
)
    requires
        endpoint.wf(),
        endpoint.is_peer(peer),
        from_peers(endpoint, wire),
        forall|i: int| 0 <= i < asks.len() ==> endpoint.is_peer(#[trigger] asks[i]),
    ensures
        answers_for(endpoint, wire, asks, peer).len() <= pending(endpoint, wire, peer).len(),
        answers_for(endpoint, wire, asks, peer) == pending(endpoint, wire, peer).take(
            answers_for(endpoint, wire, asks, peer).len() as int,
        ),
    decreases asks.len(),
{
    let waiting = pending(endpoint, wire, peer);
    let answers = answers_for(endpoint, wire, asks, peer);
    if asks.len() == 0 {
        assert(answers =~= waiting.take(0));
    } else {
        let first = receive_from(endpoint, wire, asks[0]);
        lemma_receive_is_fifo(endpoint, wire, asks[0]);
        match first.matched {
            None => {
                assert(answers =~= waiting.take(0));
            },
            Some(entry) => {
                let later = asks.skip(1);
                assert forall|i: int| 0 <= i < later.len() implies first.endpoint.is_peer(
                    #[trigger] later[i],
                ) by {
                    assert(later[i] == asks[i + 1]);
                }
                assert(first.endpoint.is_peer(peer));
                lemma_answers_in_send_order(first.endpoint, first.wire, later, peer);
                let rest = answers_for(first.endpoint, first.wire, later, peer);
                if asks[0] == peer {
                    assert(pending(endpoint, wire, asks[0]).len() > 0);
                    assert(pending(first.endpoint, first.wire, peer) == waiting.skip(1));
                    assert(answers =~= seq![entry] + rest);
                    assert(answers =~= waiting.take(answers.len() as int));
                } else {
                    assert(pending(first.endpoint, first.wire, peer) == waiting);
                }
            },
        }
    }
}

/// A fresh endpoint is handed, for each peer, exactly what that peer sent.
pub proof fn lemma_fresh_pending_is_sent(endpoint: EndpointView, wire: Seq<Envelope>, peer: int)
    requires
        endpoint.wf(),
        endpoint.is_peer(peer),
        endpoint.is_fresh(),
    ensures
        pending(endpoint, wire, peer) == sent_by(wire, peer),
{
    assert(endpoint.buffered(peer).len() == 0);
    assert(pending(endpoint, wire, peer) =~= sent_by(wire, peer));
}

/// Two messages that take the same inbound link one after the other never
/// move at the same time: the second starts no earlier than the first ends,
/// and none of its bytes, whatever its number `k`, is released before the
/// last byte of the first.
pub proof fn lemma_transfers_do_not_overlap(
    endpoint: EndpointView,
    first_arrival: int,
    first_len: nat,
    second_arrival: int,
    k: int,
)
    requires
        0 <= first_arrival,
        0 <= k,
    ensures
        ({
            let first_start = transfer_start(endpoint.next_vacancy as int, first_arrival);
            let first_end = transfer_end(first_start, endpoint.nanos_per_byte as int, first_len as int);
            let between = endpoint.after_transfer(first_arrival, first_len);
            let second_start = transfer_start(between.next_vacancy as int, second_arrival);
            &&& between.next_vacancy == first_end
            &&& second_start >= first_end
            &&& second_start >= second_arrival
            &&& release_instant(second_start, endpoint.nanos_per_byte as int, k) >= first_end
            &&& first_len > 0 ==> first_end == release_instant(
                first_start,
                endpoint.nanos_per_byte as int,
                first_len - 1,
            )
        }),
{
    let npb = endpoint.nanos_per_byte as int;
    assert(0 <= npb * (first_len as int)) by (nonlinear_arith)
        requires
            0 <= npb,
            0 <= first_len as int,
    ;
    assert(0 <= npb * (k + 1)) by (nonlinear_arith)
        requires
            0 <= npb,
            0 <= k,
    ;
    assert(npb * ((first_len - 1) + 1) == npb * (first_len as int));
}

/// The sum of `sizes`.
pub open spec fn total(sizes: Seq<nat>) -> nat
    decreases sizes.len(),
{
    if sizes.len() == 0 {
        0
    } else {
        sizes[0] + total(sizes.skip(1))
    }
}

/// The state of an endpoint after payloads of the sizes `sizes` went to
/// `to`, one send after the other.
pub open spec fn after_sends(endpoint: EndpointView, to: int, sizes: Seq<nat>) -> EndpointView
    decreases sizes.len(),
{
    if sizes.len() == 0 {
        endpoint
    } else {
        after_sends(endpoint.after_send(to, sizes[0]), to, sizes.skip(1))
    }
}

/// Byte accounting is exact: after a run of sends to one peer, the counter
/// of that peer has grown by the sum of the payload sizes, and the counter
/// of every other peer is what it was.
pub proof fn lemma_sends_add_up(endpoint: EndpointView, to: int, sizes: Seq<nat>, other: int)
    requires
        endpoint.wf(),
        endpoint.is_peer(to),
        endpoint.is_peer(other),
        other != to,
    ensures
        after_sends(endpoint, to, sizes).wf(),
        after_sends(endpoint, to, sizes).id == endpoint.id,
        after_sends(endpoint, to, sizes).n_parties() == endpoint.n_parties(),
        after_sends(endpoint, to, sizes).sent_to(to) == endpoint.sent_to(to) + total(sizes),
        after_sends(endpoint, to, sizes).sent_to(other) == endpoint.sent_to(other),
        after_sends(endpoint, to, sizes).buffers == endpoint.buffers,
    decreases sizes.len(),
{
    if sizes.len() > 0 {
        lemma_sends_add_up(endpoint.after_send(to, sizes[0]), to, sizes.skip(1), other);
    }
}

/// A broadcast counts the payload once for every peer.
pub proof fn lemma_broadcast_counts_each_peer(endpoint: EndpointView, len: nat, peer: int)
    requires
        endpoint.wf(),
        endpoint.is_peer(peer),
    ensures
        endpoint.after_broadcast(len).wf(),
        endpoint.after_broadcast(len).sent_to(peer) == endpoint.sent_to(peer) + len,
{
}

/// One step of a receive follows the whole receive: with nothing buffered
/// for `peer`, a step that pulls the first message on the pipe either
/// matches it, and then it is the message that the whole receive hands out,
/// or buffers it, and then the receive goes on from there to the same end.
/// A matched message that cannot be timed is kept: it is still the first
/// that is pending for `peer`.
pub proof fn lemma_step_follows_receive(
    pre: EndpointView,
    post: EndpointView,
    peer: int,
    wire: Seq<Envelope>,
    out: Result<Option<DelayedByteIterator>, CommError>,
)
    requires
        pre.wf(),
        pre.is_peer(peer),
        pre.buffered(peer).len() == 0,
        wire.len() > 0,
        from_peers(pre, wire),
        handles(pre, post, peer, wire[0].sender, wire[0].entry, out),
    ensures
        wire[0].sender == peer ==> receive_from(pre, wire, peer).matched == Some(wire[0].entry),
        wire[0].sender == peer && pre.transfer_fits(
            wire[0].entry.0 as int,
            wire[0].entry.1.len(),
        ) ==> starts(pre, post, wire[0].entry, out),
        wire[0].sender == peer && !pre.transfer_fits(
            wire[0].entry.0 as int,
            wire[0].entry.1.len(),
        ) ==> (out matches Err(CommError::TimeOverflow)),
        wire[0].sender != peer ==> (out matches Ok(None)),
        wire[0].sender != peer ==> receive_from(post, wire.skip(1), peer) == receive_from(
            pre,
            wire,
            peer,
        ),
        out is Err ==> pending(post, wire.skip(1), peer) == pending(pre, wire, peer),
{
    assert(pre.is_peer(wire[0].sender));
    if out is Err {
        lemma_buffering_frames(pre, peer, wire[0].entry, peer);
        assert(pending(post, wire.skip(1), peer) =~= pending(pre, wire, peer));
    }
}

/// A step of a receive that finds a message of `peer` in its buffer follows
/// the whole receive: the message it hands out is the one that the whole
/// receive matches, and what stays buffered is what the whole receive
/// leaves. Where the step fails, nothing has moved.
pub proof fn lemma_buffered_step_follows_receive(
    pre: EndpointView,
    post: EndpointView,
    peer: int,
    wire: Seq<Envelope>,
    out: Result<Option<DelayedByteIterator>, CommError>,
)
    requires
        pre.wf(),
        pre.is_peer(peer),
        pre.buffered(peer).len() > 0,
        serves_buffered(pre, post, peer, out),
    ensures
        receive_from(pre, wire, peer).matched == Some(pre.buffered(peer)[0]),
        receive_from(pre, wire, peer).wire == wire,
        out is Ok ==> post.buffers == receive_from(pre, wire, peer).endpoint.buffers,
        out is Ok ==> starts(pre.after_unbuffering(peer), post, pre.buffered(peer)[0], out),
        out is Err ==> post == pre,
{
}

/// What a receive hands out, and what it leaves buffered and on the pipe,
/// does not depend on the latency, the throughput or the state of the link.
pub proof fn lemma_receive_ignores_delays(
    endpoint: EndpointView,
    wire: Seq<Envelope>,
    peer: int,
    latency: nat,
    nanos_per_byte: nat,
    next_vacancy: nat,
)
    ensures
        ({
            let other = EndpointView { latency, nanos_per_byte, next_vacancy, ..endpoint };
            let here = receive_from(endpoint, wire, peer);
            let there = receive_from(other, wire, peer);
            &&& there.matched == here.matched
            &&& there.wire == here.wire
            &&& there.endpoint == EndpointView {
                latency,
                nanos_per_byte,
                next_vacancy,
                ..here.endpoint
            }
        }),
    decreases wire.len(),
{
    let other = EndpointView { latency, nanos_per_byte, next_vacancy, ..endpoint };
    if endpoint.buffered(peer).len() > 0 {
    } else if wire.len() == 0 {
    } else if wire[0].sender == peer {
    } else {
        lemma_receive_ignores_delays(
            endpoint.after_buffering(wire[0].sender, wire[0].entry),
            wire.skip(1),
            peer,
            latency,
            nanos_per_byte,
            next_vacancy,
        );
        assert(other.after_buffering(wire[0].sender, wire[0].entry) == EndpointView {
            latency,
            nanos_per_byte,
            next_vacancy,
            ..endpoint.after_buffering(wire[0].sender, wire[0].entry)
        });
    }
}

/// Overhead only ever delays. Without latency and with bytes that take no
/// time, every byte of a message is released the moment the message starts
/// to move, and the link is vacant again at once; with any latency and any
/// time per byte, no byte is released earlier than that.
pub proof fn lemma_overhead_only_delays(
    next_vacancy: nat,
    sent_at: nat,
    latency: nat,
    nanos_per_byte: nat,
    len: nat,
    k: int,
)
    requires
        0 <= k,
    ensures
        release_instant(transfer_start(next_vacancy as int, sent_at as int), 0, k)
            == transfer_start(next_vacancy as int, sent_at as int),
        transfer_end(transfer_start(next_vacancy as int, sent_at as int), 0, len as int)
            == transfer_start(next_vacancy as int, sent_at as int),
        release_instant(
            transfer_start(next_vacancy as int, (sent_at + latency) as int),
            nanos_per_byte as int,
            k,
        ) >= transfer_start(next_vacancy as int, sent_at as int),
        latency > 0 || nanos_per_byte > 0 ==> release_instant(
            transfer_start(next_vacancy as int, (sent_at + latency) as int),
            nanos_per_byte as int,
            k,
        ) > sent_at,
{
    assert(0 <= (nanos_per_byte as int) * (k + 1)) by (nonlinear_arith)
        requires
            0 <= k,
    ;
    assert((nanos_per_byte as int) * (k + 1) >= nanos_per_byte as int) by (nonlinear_arith)
        requires
            0 <= k,
    ;
}

} // verus!

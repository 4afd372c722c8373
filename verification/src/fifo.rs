//! The reorder queue of one peer: a `queues::Queue` of timestamped payloads.

use queues::{IsQueue, Queue};
use vstd::prelude::*;

verus! {

/// `queues::Queue`, a first-in-first-out queue over a growable vector.
#[verifier::external_type_specification]
#[verifier::external_body]
#[verifier::reject_recursive_types(T)]
pub struct ExQueue<T: Clone>(Queue<T>);

/// The entries of a reorder queue, oldest first: the arrival instant of each
/// message and its payload.
pub uninterp spec fn queue_items(q: Queue<(u128, Vec<u8>)>) -> Seq<(u128, Seq<u8>)>;

/// An entry as the contracts speak of it: the instant and the payload's bytes.
pub open spec fn entry_view(entry: (u128, Vec<u8>)) -> (u128, Seq<u8>) {
    (entry.0, entry.1@)
}

/// `Queue::new`: a queue that holds nothing.
#[verifier::external_body]
pub(crate) fn queue_new() -> (q: Queue<(u128, Vec<u8>)>)
    ensures
        queue_items(q) == Seq::<(u128, Seq<u8>)>::empty(),
{
    Queue::new()
}

/// `Queue::size`: the number of entries held.
#[verifier::external_body]
pub(crate) fn queue_size(q: &Queue<(u128, Vec<u8>)>) -> (n: usize)
    ensures
        n == queue_items(*q).len(),
{
    q.size()
}

/// `Queue::add`: appends the entry behind all others. For this queue the call
/// always succeeds and hands nothing back.
#[verifier::external_body]
pub(crate) fn queue_add(q: &mut Queue<(u128, Vec<u8>)>, arrival: u128, payload: Vec<u8>)
    ensures
        queue_items(*final(q)) == queue_items(*old(q)).push((arrival, payload@)),
{
    let _ = q.add((arrival, payload));
}

/// `Queue::remove`: takes the oldest entry out and returns it; on an empty
/// queue it fails and leaves the queue as it was.
#[verifier::external_body]
pub(crate) fn queue_remove(q: &mut Queue<(u128, Vec<u8>)>) -> (head: Option<(u128, Vec<u8>)>)
    ensures
        queue_items(*old(q)).len() == 0 ==> head is None && queue_items(*final(q)) == queue_items(
            *old(q),
        ),
        queue_items(*old(q)).len() > 0 ==> head is Some && entry_view(head.unwrap())
            == queue_items(*old(q))[0] && queue_items(*final(q)) == queue_items(*old(q)).skip(1),
{
    q.remove().ok()
}

/// `Queue::peek`: a copy of the oldest entry, or a failure on an empty
/// queue; the queue itself is left as it is.
#[verifier::external_body]
pub(crate) fn queue_peek(q: &Queue<(u128, Vec<u8>)>) -> (head: Option<(u128, Vec<u8>)>)
    ensures
        queue_items(*q).len() == 0 ==> head is None,
        queue_items(*q).len() > 0 ==> head is Some && entry_view(head.unwrap()) == queue_items(
            *q,
        )[0],
{
    q.peek().ok()
}

} // verus!

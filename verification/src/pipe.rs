//! Link pipes: the many-sender, single-receiver conduits that carry messages
//! between workers, built on `std::sync::mpsc`. Each pipe carries all the
//! traffic to one party, and both of its ends remember which party that is.

use crate::comm::Message;
use std::sync::mpsc::{channel, Receiver, Sender};
use vstd::prelude::*;

verus! {

/// `std::sync::mpsc::Sender`, the producing end of a pipe.
#[verifier::external_type_specification]
#[verifier::external_body]
#[verifier::reject_recursive_types(T)]
pub struct ExSender<T>(Sender<T>);

/// `std::sync::mpsc::Receiver`, the consuming end of a pipe.
#[verifier::external_type_specification]
#[verifier::external_body]
#[verifier::reject_recursive_types(T)]
pub struct ExReceiver<T>(Receiver<T>);

/// `std::sync::mpsc::channel`: opens a fresh pipe and returns its two ends.
#[verifier::external_body]
fn pipe_open() -> (ends: (Sender<Message>, Receiver<Message>)) {
    channel()
}

/// `Sender::clone`: another producing end of the same pipe.
#[verifier::external_body]
fn pipe_share(producer: &Sender<Message>) -> (copy: Sender<Message>) {
    producer.clone()
}

/// `Sender::send`: queues the message on the pipe without blocking. The
/// answer is `false` when the consuming end is gone; which of the two comes
/// back depends on the other workers.
#[verifier::external_body]
fn pipe_send(producer: &Sender<Message>, message: Message) -> (delivered: bool) {
    producer.send(message).is_ok()
}

/// `Receiver::recv`: blocks until a message is on the pipe and takes it, or
/// answers `None` once every producing end is gone and the pipe is empty.
/// What arrives depends on the other workers, so nothing is claimed of it.
#[verifier::external_body]
fn pipe_recv(consumer: &Receiver<Message>) -> (pulled: Option<Message>) {
    consumer.recv().ok()
}

/// A producing end of the pipe that leads to the party `target`.
pub struct Producer {
    target: usize,
    handle: Sender<Message>,
}

/// The consuming end of the pipe that leads to the party `owner`.
pub struct Consumer {
    owner: usize,
    handle: Receiver<Message>,
}

/// Opens the pipe that leads to the party `owner` and returns its two ends.
pub fn open(owner: usize) -> (ends: (Producer, Consumer))
    ensures
        ends.0.target() == owner,
        ends.1.owner() == owner,
{
    let (producer, consumer) = pipe_open();
    (Producer { target: owner, handle: producer }, Consumer { owner, handle: consumer })
}

impl Producer {
    /// The party that this end's pipe leads to.
    pub closed spec fn target(&self) -> usize {
        self.target
    }

    /// The party that this end's pipe leads to.
    pub fn leads_to(&self) -> (party: usize)
        ensures
            party == self.target(),
    {
        self.target
    }

    /// Another producing end of the same pipe.
    pub fn share(&self) -> (copy: Producer)
        ensures
            copy.target() == self.target(),
    {
        Producer { target: self.target, handle: pipe_share(&self.handle) }
    }

    /// Puts `message` on the pipe. The answer is `false` when the party at
    /// the other end is gone, which no contract can foresee.
    pub(crate) fn push(&self, message: Message) -> (delivered: bool) {
        pipe_send(&self.handle, message)
    }
}

impl Consumer {
    /// The party that this pipe leads to.
    pub closed spec fn owner(&self) -> usize {
        self.owner
    }

    /// The party that this pipe leads to.
    pub fn belongs_to(&self) -> (party: usize)
        ensures
            party == self.owner(),
    {
        self.owner
    }

    /// Waits for the next message on the pipe and takes it; `None` once no
    /// producing end is left and the pipe is empty. What comes depends on
    /// the other workers.
    pub(crate) fn pull(&self) -> (pulled: Option<Message>) {
        pipe_recv(&self.handle)
    }
}

} // verus!

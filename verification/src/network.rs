//! Network descriptions: the factories that open the link pipes of a network
//! and hand every party its endpoint.

use crate::clock::Clock;
use crate::comm::Channels;
use crate::model::slot_peer;
use crate::pipe::{open, Consumer, Producer};
use vstd::prelude::*;

verus! {

/// A network description instantiates the network it describes: it opens the
/// pipes and builds the endpoint of each party.
pub trait NetworkDescription {
    /// Builds one endpoint per party, that of party `i` at index `i`, each
    /// with a slot for every other party and nothing sent or buffered yet.
    /// The inbound pipe of each endpoint is its own party's, and the pipe it
    /// keeps for a peer leads to that peer. All endpoints read one clock, so
    /// that the instants they stamp and compare are on one scale.
    fn instantiate(&self, n_parties: usize) -> (endpoints: Vec<Channels>)
        ensures
            endpoints.len() == n_parties,
            forall|i: int, j: int|
                0 <= i < n_parties && 0 <= j < n_parties ==> (#[trigger] endpoints[i]).shared_clock()
                    == (#[trigger] endpoints[j]).shared_clock(),
            forall|i: int|
                0 <= i < n_parties ==> {
                    &&& (#[trigger] endpoints[i]).wf()
                    &&& endpoints[i]@.id == i
                    &&& endpoints[i]@.n_parties() == n_parties
                    &&& endpoints[i]@.is_fresh()
                    &&& endpoints[i].drains() == i
                },
            forall|i: int, j: int|
                0 <= i < n_parties && 0 <= j < n_parties && i != j ==> (#[trigger] endpoints[i].feeds(
                    j,
                )) == j,
    ;
}

/// A full mesh: every party is linked to every other, all links with the
/// same latency and the same throughput.
pub struct FullMesh {
    latency: u128,
    nanos_per_byte: u128,
}

impl FullMesh {
    /// The propagation delay of every link, in nanoseconds.
    pub closed spec fn latency(&self) -> u128 {
        self.latency
    }

    /// The time one byte occupies a link, in nanoseconds.
    pub closed spec fn nanos_per_byte(&self) -> u128 {
        self.nanos_per_byte
    }

    /// A full mesh without communication overhead: no latency, and bytes
    /// take no time.
    pub fn new() -> (mesh: Self)
        ensures
            mesh.latency() == 0,
            mesh.nanos_per_byte() == 0,
    {
        FullMesh { latency: 0, nanos_per_byte: 0 }
    }

    /// A full mesh whose links delay every message by `latency` nanoseconds
    /// and carry one byte in `nanos_per_byte` nanoseconds.
    pub fn new_with_overhead(latency: u128, nanos_per_byte: u128) -> (mesh: Self)
        ensures
            mesh.latency() == latency,
            mesh.nanos_per_byte() == nanos_per_byte,
    {
        FullMesh { latency, nanos_per_byte }
    }

    /// The producing ends that party `id` needs: one of each other party's
    /// pipe, in the order of the party ids.
    fn outbound_for(producers: &Vec<Producer>, id: usize) -> (senders: Vec<Producer>)
        requires
            id < producers.len(),
            forall|p: int| 0 <= p < producers.len() ==> (#[trigger] producers[p]).target() == p,
        ensures
            senders.len() == producers.len() - 1,
            forall|s: int|
                0 <= s < senders.len() ==> (#[trigger] senders[s]).target() == slot_peer(
                    id as int,
                    s,
                ),
    {
        let n: usize = producers.len();
        let mut senders: Vec<Producer> = Vec::new();
        let mut peer: usize = 0;
        while peer < n
            invariant
                peer <= n,
                id < n,
                n == producers.len(),
                forall|p: int| 0 <= p < producers.len() ==> (#[trigger] producers[p]).target() == p,
                senders.len() == if peer <= id {
                    peer as int
                } else {
                    peer - 1
                },
                forall|s: int|
                    0 <= s < senders.len() ==> (#[trigger] senders[s]).target() == slot_peer(
                        id as int,
                        s,
                    ),
            decreases n - peer,
        {
            if peer != id {
                senders.push(producers[peer].share());
            }
            peer = peer + 1;
        }
        senders
    }
}

impl Default for FullMesh {
    fn default() -> (mesh: Self)
        ensures
            mesh.latency() == 0,
            mesh.nanos_per_byte() == 0,
    {
        FullMesh::new()
    }
}

impl FullMesh {
    /// Instantiates the mesh for `n_parties` parties whose endpoints read
    /// `clock` and whose inbound links count as vacant from the instant
    /// `now`. One pipe is opened per party, which carries all traffic to
    /// that party, and every other party is given a producing end of it.
    pub fn instantiate_at(&self, n_parties: usize, clock: Clock, now: u128) -> (endpoints: Vec<
        Channels,
    >)
        ensures
            endpoints.len() == n_parties,
            forall|i: int|
                0 <= i < n_parties ==> {
                    &&& (#[trigger] endpoints[i]).wf()
                    &&& endpoints[i]@.id == i
                    &&& endpoints[i]@.n_parties() == n_parties
                    &&& endpoints[i]@.is_fresh()
                    &&& endpoints[i]@.latency == self.latency()
                    &&& endpoints[i]@.nanos_per_byte == self.nanos_per_byte()
                    &&& endpoints[i]@.next_vacancy == now
                    &&& endpoints[i].shared_clock() == clock
                    &&& endpoints[i].drains() == i
                },
            forall|i: int, j: int|
                0 <= i < n_parties && 0 <= j < n_parties && i != j ==> (#[trigger] endpoints[i].feeds(
                    j,
                )) == j,
    {
        let mut producers: Vec<Producer> = Vec::new();
        let mut consumers: Vec<Consumer> = Vec::new();
        let mut opened: usize = 0;
        while opened < n_parties
            invariant
                opened <= n_parties,
                producers.len() == opened,
                consumers.len() == opened,
                forall|p: int| 0 <= p < opened ==> (#[trigger] producers[p]).target() == p,
                forall|p: int| 0 <= p < opened ==> (#[trigger] consumers[p]).owner() == p,
            decreases n_parties - opened,
        {
            let (producer, consumer) = open(opened);
            producers.push(producer);
            consumers.push(consumer);
            opened = opened + 1;
        }
        let mut endpoints: Vec<Channels> = Vec::new();
        let mut id: usize = 0;
        while id < n_parties
            invariant
                id <= n_parties,
                producers.len() == n_parties,
                consumers.len() == n_parties - id,
                endpoints.len() == id,
                forall|p: int| 0 <= p < n_parties ==> (#[trigger] producers[p]).target() == p,
                forall|p: int|
                    0 <= p < consumers.len() ==> (#[trigger] consumers[p]).owner() == id + p,
                forall|i: int|
                    0 <= i < id ==> {
                        &&& (#[trigger] endpoints[i]).wf()
                        &&& endpoints[i]@.id == i
                        &&& endpoints[i]@.n_parties() == n_parties
                        &&& endpoints[i]@.is_fresh()
                        &&& endpoints[i]@.latency == self.latency()
                        &&& endpoints[i]@.nanos_per_byte == self.nanos_per_byte()
                        &&& endpoints[i].shared_clock() == clock
                        &&& endpoints[i]@.next_vacancy == now
                    },
            decreases n_parties - id,
        {
            let receiver = consumers.remove(0);
            let senders = FullMesh::outbound_for(&producers, id);
            let endpoint = Channels::new_at(
                id,
                senders,
                receiver,
                self.latency,
                self.nanos_per_byte,
                clock,
                now,
            );
            endpoints.push(endpoint);
            id = id + 1;
        }
        proof {
            assert forall|i: int, j: int|
                0 <= i < n_parties && 0 <= j < n_parties && i != j implies (
            #[trigger] endpoints[i].feeds(j)) == j by {
                endpoints[i].lemma_wiring(j);
            }
            assert forall|i: int| 0 <= i < n_parties implies (#[trigger] endpoints[i]).drains()
                == i by {
                endpoints[i].lemma_inbound();
            }
        }
        endpoints
    }
}

impl NetworkDescription for FullMesh {
    /// Instantiates the mesh as `instantiate_at` does, with a clock started
    /// for this network and every inbound link vacant from the first reading
    /// of that clock. All endpoints carry this description's latency and
    /// throughput.
    fn instantiate(&self, n_parties: usize) -> (endpoints: Vec<Channels>)
        ensures
            forall|i: int|
                0 <= i < n_parties ==> {
                    &&& (#[trigger] endpoints[i])@.latency == self.latency()
                    &&& endpoints[i]@.nanos_per_byte == self.nanos_per_byte()
                },
            forall|i: int, j: int|
                0 <= i < n_parties && 0 <= j < n_parties ==> (#[trigger] endpoints[i])@.next_vacancy
                    == (#[trigger] endpoints[j])@.next_vacancy,
    {
        let clock = Clock::start();
        let now: u128 = clock.now();
        self.instantiate_at(n_parties, clock, now)
    }
}

} // verus!

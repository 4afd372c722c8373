use mpc_bench::comm::{Channels, CommError, DelayedByteIterator, Message};
use mpc_bench::network::{FullMesh, NetworkDescription};
use mpc_bench::pipe::open;
use mpc_bench::clock::{span_until, split_span, Clock};

const SECOND: u128 = 1_000_000_000;

fn receive(endpoint: &mut Channels, from_id: usize) -> DelayedByteIterator {
    loop {
        match endpoint.receive(&from_id) {
            Ok(Some(stream)) => return stream,
            Ok(None) => {}
            Err(error) => panic!("receive failed: {:?}", error),
        }
    }
}

fn collect(stream: &mut DelayedByteIterator) -> Vec<(u128, u8)> {
    let mut out = vec![];
    while let Some(released) = stream.next() {
        out.push(released);
    }
    out
}

fn bytes_of(stream: &mut DelayedByteIterator) -> Vec<u8> {
    collect(stream).into_iter().map(|(_, byte)| byte).collect()
}

fn run_example(mesh: &FullMesh, n_parties: usize, inputs: Vec<usize>) -> Vec<usize> {
    assert_eq!(inputs.len(), n_parties);
    let mut endpoints = mesh.instantiate(n_parties);
    for id in 0..n_parties {
        for to in (id + 1)..n_parties {
            endpoints[id].send(&[id as u8], &to).unwrap();
        }
    }
    let mut outputs = vec![];
    for id in 0..n_parties {
        for from in 0..id {
            let mut stream = receive(&mut endpoints[id], from);
            assert_eq!(bytes_of(&mut stream), vec![from as u8]);
        }
        outputs.push(id + inputs[id]);
    }
    outputs
}

#[test]
fn it_works() {
    let outputs = run_example(&FullMesh::new(), 5, vec![10; 5]);
    assert_eq!(outputs[0], 10);
    assert_eq!(outputs[1], 11);
    assert_eq!(outputs[2], 12);
    assert_eq!(outputs[3], 13);
    assert_eq!(outputs[4], 14);
}

#[test]
fn outputs_do_not_depend_on_delays() {
    let plain = run_example(&FullMesh::new(), 5, vec![10; 5]);
    let again = run_example(&FullMesh::new(), 5, vec![10; 5]);
    let slow = run_example(&FullMesh::new_with_overhead(SECOND, SECOND), 5, vec![10; 5]);
    assert_eq!(plain, vec![10, 11, 12, 13, 14]);
    assert_eq!(plain, again);
    assert_eq!(plain, slow);
}

#[test]
fn instantiate_gives_one_fresh_endpoint_per_party() {
    let endpoints = FullMesh::new_with_overhead(5, 7).instantiate(4);
    assert_eq!(endpoints.len(), 4);
    for (id, endpoint) in endpoints.iter().enumerate() {
        assert_eq!(endpoint.id(), id);
        assert_eq!(endpoint.party_count(), 4);
        assert_eq!(endpoint.peer_count(), 3);
        assert_eq!(endpoint.latency(), 5);
        assert_eq!(endpoint.nanos_per_byte(), 7);
        for peer in 0..4 {
            assert_eq!(endpoint.is_peer(peer), peer != id);
            if peer != id {
                assert_eq!(endpoint.sent_bytes(peer), 0);
                assert_eq!(endpoint.buffered_count(peer), 0);
            }
        }
    }
}

#[test]
fn instantiate_degenerate_networks() {
    assert_eq!(FullMesh::new().instantiate(0).len(), 0);
    let lonely = FullMesh::default().instantiate(1);
    assert_eq!(lonely.len(), 1);
    assert_eq!(lonely[0].party_count(), 1);
    assert!(!lonely[0].is_peer(0));
    assert!(!lonely[0].is_peer(1));
}

#[test]
fn reduced_id_skips_own_id() {
    let endpoints = FullMesh::new().instantiate(5);
    let slots: Vec<usize> = [0usize, 1, 3, 4].iter().map(|&p| endpoints[2].reduced_id(p)).collect();
    assert_eq!(slots, vec![0, 1, 2, 3]);
    let slots: Vec<usize> = [1usize, 2, 3, 4].iter().map(|&p| endpoints[0].reduced_id(p)).collect();
    assert_eq!(slots, vec![0, 1, 2, 3]);
    let slots: Vec<usize> = [0usize, 1, 2, 3].iter().map(|&p| endpoints[4].reduced_id(p)).collect();
    assert_eq!(slots, vec![0, 1, 2, 3]);
}

#[test]
fn five_parties_receive_in_increasing_order() {
    let mut endpoints = FullMesh::new().instantiate(5);
    for i in 0..5usize {
        for j in (i + 1)..5 {
            assert_eq!(endpoints[i].send(&[i as u8], &j), Ok(()));
        }
    }
    for j in 0..5usize {
        for i in 0..j {
            let mut stream = receive(&mut endpoints[j], i);
            assert_eq!(stream.remaining(), 1);
            assert_eq!(bytes_of(&mut stream), vec![i as u8]);
        }
        for i in 0..5usize {
            if i != j {
                assert_eq!(endpoints[j].buffered_count(i), 0);
                assert_eq!(endpoints[j].sent_bytes(i), if i > j { 1 } else { 0 });
            }
        }
    }
}

#[test]
fn receive_is_fifo_per_sender_under_interleaving() {
    let mut endpoints = FullMesh::new().instantiate(3);
    endpoints[1].send(b"a1", &0).unwrap();
    endpoints[2].send(b"b1", &0).unwrap();
    endpoints[2].send(b"b2", &0).unwrap();
    endpoints[1].send(b"a2", &0).unwrap();
    endpoints[2].send(b"b3", &0).unwrap();
    endpoints[1].send(b"a3", &0).unwrap();

    let mut stream = receive(&mut endpoints[0], 2);
    assert_eq!(bytes_of(&mut stream), b"b1".to_vec());
    assert_eq!(endpoints[0].buffered_count(1), 1);
    let mut stream = receive(&mut endpoints[0], 2);
    assert_eq!(bytes_of(&mut stream), b"b2".to_vec());
    let mut stream = receive(&mut endpoints[0], 2);
    assert_eq!(bytes_of(&mut stream), b"b3".to_vec());
    assert_eq!(endpoints[0].buffered_count(1), 2);
    assert_eq!(endpoints[0].buffered_count(2), 0);
    for expected in [b"a1", b"a2", b"a3"] {
        let mut stream = receive(&mut endpoints[0], 1);
        assert_eq!(bytes_of(&mut stream), expected.to_vec());
    }
    assert_eq!(endpoints[0].buffered_count(1), 0);
}

#[test]
fn receive_buffers_other_senders() {
    let mut endpoints = FullMesh::new().instantiate(3);
    endpoints[1].send(&[1], &0).unwrap();
    endpoints[2].send(&[2], &0).unwrap();
    assert!(matches!(endpoints[0].receive(&2), Ok(None)));
    assert_eq!(endpoints[0].buffered_count(1), 1);
    let mut stream = endpoints[0].receive(&2).unwrap().unwrap();
    assert_eq!(bytes_of(&mut stream), vec![2]);
    let mut stream = endpoints[0].receive(&1).unwrap().unwrap();
    assert_eq!(bytes_of(&mut stream), vec![1]);
    assert_eq!(endpoints[0].buffered_count(1), 0);
}

#[test]
fn buffers_keep_arrival_order() {
    let mut endpoints = FullMesh::new().instantiate(3);
    let endpoint = &mut endpoints[1];
    endpoint.put_buffered(2, 30, vec![3]);
    endpoint.put_buffered(0, 10, vec![1]);
    endpoint.put_buffered(2, 20, vec![4, 5]);
    assert_eq!(endpoint.buffered_count(2), 2);
    assert_eq!(endpoint.buffered_count(0), 1);
    assert_eq!(endpoint.take_buffered(&2), Some((30, vec![3])));
    assert_eq!(endpoint.take_buffered(&2), Some((20, vec![4, 5])));
    assert_eq!(endpoint.take_buffered(&2), None);
    assert_eq!(endpoint.take_buffered(&0), Some((10, vec![1])));
    assert_eq!(endpoint.take_buffered(&0), None);
}

#[test]
fn byte_accounting_is_exact() {
    let mut endpoints = FullMesh::new().instantiate(4);
    let endpoint = &mut endpoints[1];
    endpoint.send(&[0; 3], &2).unwrap();
    endpoint.send(&[0; 5], &2).unwrap();
    endpoint.send(&[], &2).unwrap();
    endpoint.send(&[0; 2], &0).unwrap();
    assert_eq!(endpoint.sent_bytes(2), 8);
    assert_eq!(endpoint.sent_bytes(0), 2);
    assert_eq!(endpoint.sent_bytes(3), 0);
    endpoint.broadcast(&[0; 4]).unwrap();
    assert_eq!(endpoint.sent_bytes(0), 6);
    assert_eq!(endpoint.sent_bytes(2), 12);
    assert_eq!(endpoint.sent_bytes(3), 4);
    endpoint.add_sent_bytes(10, &3);
    assert_eq!(endpoint.sent_bytes(3), 14);
}

#[test]
fn broadcast_reaches_every_peer_once() {
    let mut endpoints = FullMesh::new().instantiate(4);
    endpoints[2].broadcast(&[7, 8]).unwrap();
    for id in [0usize, 1, 3] {
        let mut stream = receive(&mut endpoints[id], 2);
        assert_eq!(bytes_of(&mut stream), vec![7, 8]);
    }
    endpoints[2].send(&[9], &2_usize.wrapping_sub(1)).unwrap();
    let mut stream = receive(&mut endpoints[1], 2);
    assert_eq!(bytes_of(&mut stream), vec![9]);
}

#[test]
fn envelope_adds_latency() {
    let endpoints = FullMesh::new_with_overhead(250, 1).instantiate(2);
    let message = endpoints[1].envelope(&[4, 2], 1000).unwrap();
    assert_eq!(message.from_id, 1);
    assert_eq!(message.arrival_time, 1250);
    assert_eq!(message.contents, vec![4, 2]);
    assert!(endpoints[1].envelope(&[4, 2], u128::MAX - 249).is_none());
    assert!(endpoints[1].envelope(&[4, 2], u128::MAX - 250).is_some());
}

#[test]
fn delayed_bytes_are_paced() {
    let mut stream = DelayedByteIterator::new(vec![1, 2, 3], 100, 7);
    assert_eq!(stream.remaining(), 3);
    assert_eq!(stream.next(), Some((107, 1)));
    assert_eq!(stream.next(), Some((114, 2)));
    assert_eq!(stream.remaining(), 1);
    assert_eq!(stream.next(), Some((121, 3)));
    assert_eq!(stream.next(), None);
    assert_eq!(stream.next(), None);
    let mut empty = DelayedByteIterator::new(vec![], u128::MAX, u128::MAX);
    assert_eq!(empty.next(), None);
}

#[test]
fn transfer_starts_at_later_of_vacancy_and_arrival() {
    let mut endpoints = FullMesh::new_with_overhead(0, 10).instantiate(2);
    let endpoint = &mut endpoints[0];
    let vacancy = endpoint.next_vacancy();
    let arrival = vacancy + 1000;
    let mut first = endpoint.start_transfer(arrival, vec![1, 2, 3]);
    assert_eq!(endpoint.next_vacancy(), arrival + 30);
    assert_eq!(collect(&mut first), vec![(arrival + 10, 1), (arrival + 20, 2), (arrival + 30, 3)]);
    let mut second = endpoint.start_transfer(arrival + 5, vec![4]);
    assert_eq!(endpoint.next_vacancy(), arrival + 40);
    assert_eq!(collect(&mut second), vec![(arrival + 40, 4)]);
    let mut third = endpoint.start_transfer(arrival + 100, vec![]);
    assert_eq!(endpoint.next_vacancy(), arrival + 100);
    assert_eq!(collect(&mut third), vec![]);
}

#[test]
fn transfers_from_two_senders_do_not_overlap() {
    let mut endpoints = FullMesh::new_with_overhead(SECOND, SECOND / 2).instantiate(3);
    let now = endpoints[0].clock().now() + SECOND;
    assert_eq!(endpoints[1].send_at(&[1, 1, 1, 1], &0, now), Ok(()));
    assert_eq!(endpoints[2].send_at(&[2, 2], &0, now + 1), Ok(()));
    let mut first = receive(&mut endpoints[0], 1);
    let first_end = endpoints[0].next_vacancy();
    assert_eq!(first_end, now + SECOND + 4 * (SECOND / 2));
    let mut second = receive(&mut endpoints[0], 2);
    let first = collect(&mut first);
    let second = collect(&mut second);
    assert_eq!(first.last().unwrap().0, first_end);
    assert_eq!(second[0].0, first_end + SECOND / 2);
    assert_eq!(second[1].0, first_end + SECOND);
    assert_eq!(endpoints[0].next_vacancy(), first_end + SECOND);
}

#[test]
fn single_byte_round_trip() {
    let mut endpoints = FullMesh::new_with_overhead(SECOND, SECOND).instantiate(2);
    let before = endpoints[0].clock().now();
    endpoints[0].send(&[42], &1).unwrap();
    let after = endpoints[0].clock().now();
    let mut stream = receive(&mut endpoints[1], 0);
    let released = collect(&mut stream);
    assert_eq!(released.len(), 1);
    assert_eq!(released[0].1, 42);
    let waited_at_least = released[0].0 - after;
    let waited_at_most = released[0].0 - before;
    assert!(waited_at_least >= SECOND);
    assert!(released[0].0 >= before + 2 * SECOND);
    assert!(waited_at_most >= 2 * SECOND);
    assert!(released[0].0 <= after + 2 * SECOND);
}

#[test]
fn zero_overhead_releases_at_once() {
    let mut plain = FullMesh::new().instantiate(2);
    let mut slow = FullMesh::new_with_overhead(3, 5).instantiate(2);
    let now = plain[0].clock().now().max(slow[0].clock().now()) + SECOND;
    plain[0].send_at(&[1, 2, 3], &1, now).unwrap();
    slow[0].send_at(&[1, 2, 3], &1, now).unwrap();
    let plain_times = collect(&mut receive(&mut plain[1], 0));
    let slow_times = collect(&mut receive(&mut slow[1], 0));
    assert_eq!(plain_times, vec![(now, 1), (now, 2), (now, 3)]);
    assert_eq!(slow_times, vec![(now + 8, 1), (now + 13, 2), (now + 18, 3)]);
    assert_eq!(plain[1].next_vacancy(), now);
    assert_eq!(slow[1].next_vacancy(), now + 18);
}

#[test]
fn send_to_a_gone_peer_is_disconnected() {
    let mut endpoints = FullMesh::new().instantiate(2);
    let gone = endpoints.pop().unwrap();
    drop(gone);
    assert_eq!(endpoints[0].send(&[1], &1), Err(CommError::Disconnected));
    assert_eq!(endpoints[0].broadcast(&[1]), Err(CommError::Disconnected));
    assert_eq!(endpoints[0].sent_bytes(1), 0);
    assert!(matches!(endpoints[0].receive(&1), Err(CommError::Disconnected)));
}

#[test]
fn instants_that_cannot_be_held_are_refused() {
    let mut endpoints = FullMesh::new_with_overhead(1, 2).instantiate(2);
    assert_eq!(endpoints[0].send_at(&[1], &1, u128::MAX), Err(CommError::TimeOverflow));
    assert_eq!(endpoints[0].sent_bytes(1), 0);
    let vacancy = endpoints[1].next_vacancy();
    assert!(endpoints[1].transfer_fits(u128::MAX - 2, 1));
    assert!(!endpoints[1].transfer_fits(u128::MAX - 1, 1));
    assert!(endpoints[1].transfer_fits(u128::MAX, 0));
    let late = Message { arrival_time: u128::MAX - 1, from_id: 0, contents: vec![7] };
    assert!(matches!(endpoints[1].handle_pulled(&0, late), Err(CommError::TimeOverflow)));
    assert_eq!(endpoints[1].next_vacancy(), vacancy);
    assert_eq!(endpoints[1].buffered_count(0), 1);
    assert!(matches!(endpoints[1].receive(&0), Err(CommError::TimeOverflow)));
    assert_eq!(endpoints[1].buffered_count(0), 1);
    assert_eq!(endpoints[1].next_vacancy(), vacancy);
    assert_eq!(endpoints[1].take_buffered(&0), Some((u128::MAX - 1, vec![7])));
    assert!(matches!(endpoints[1].deliver(u128::MAX, vec![1]), Err(CommError::TimeOverflow)));
    let mut stream = endpoints[1].deliver(u128::MAX - 4, vec![1, 2]).unwrap().unwrap();
    assert_eq!(collect(&mut stream), vec![(u128::MAX - 2, 1), (u128::MAX, 2)]);
    assert_eq!(endpoints[1].next_vacancy(), u128::MAX);
}

#[test]
fn messages_of_strangers_are_refused() {
    let mut endpoints = FullMesh::new().instantiate(3);
    let stranger = Message { arrival_time: 0, from_id: 3, contents: vec![1] };
    assert!(matches!(endpoints[0].handle_pulled(&1, stranger), Err(CommError::UnknownSender)));
    let own = Message { arrival_time: 0, from_id: 0, contents: vec![1] };
    assert!(matches!(endpoints[0].handle_pulled(&1, own), Err(CommError::UnknownSender)));
    assert_eq!(endpoints[0].buffered_count(1), 0);
    assert_eq!(endpoints[0].buffered_count(2), 0);
}

#[test]
fn handle_pulled_delivers_or_buffers() {
    let mut endpoints = FullMesh::new_with_overhead(0, 1).instantiate(3);
    let endpoint = &mut endpoints[2];
    let base = endpoint.next_vacancy() + 50;
    let other = Message { arrival_time: base, from_id: 0, contents: vec![1, 2] };
    assert!(matches!(endpoint.handle_pulled(&1, other), Ok(None)));
    assert_eq!(endpoint.buffered_count(0), 1);
    let wanted = Message { arrival_time: base + 1, from_id: 1, contents: vec![3] };
    let mut stream = endpoint.handle_pulled(&1, wanted).unwrap().unwrap();
    assert_eq!(collect(&mut stream), vec![(base + 2, 3)]);
    assert_eq!(endpoint.buffered_count(0), 1);
    let mut stream = endpoint.receive(&0).unwrap().unwrap();
    assert_eq!(collect(&mut stream), vec![(base + 3, 1), (base + 4, 2)]);
}

#[test]
fn clock_does_not_run_backwards() {
    let endpoints = FullMesh::new().instantiate(2);
    let clock = endpoints[0].clock();
    let earlier = clock.now();
    let later = endpoints[1].clock().now();
    assert!(later >= earlier);
}

#[test]
fn endpoints_can_be_built_by_hand() {
    let clock = Clock::start();
    let (to_zero, at_zero) = open(0);
    let (to_one, at_one) = open(1);
    assert_eq!(to_zero.leads_to(), 0);
    assert_eq!(to_one.share().leads_to(), 1);
    assert_eq!(at_one.belongs_to(), 1);
    let mut zero = Channels::new(0, vec![to_one.share()], at_zero, 10, 0, clock);
    let mut one = Channels::new(1, vec![to_zero], at_one, 10, 0, clock);
    assert_eq!(zero.party_count(), 2);
    assert!(zero.next_vacancy() <= one.next_vacancy());
    let now = clock.now() + SECOND;
    zero.send_at(&[5, 6], &1, now).unwrap();
    one.send_at(&[7], &0, now + 1).unwrap();
    assert_eq!(collect(&mut receive(&mut one, 0)), vec![(now + 10, 5), (now + 10, 6)]);
    assert_eq!(collect(&mut receive(&mut zero, 1)), vec![(now + 11, 7)]);
    drop(one);
    assert_eq!(zero.send_at(&[8], &1, now), Err(CommError::Disconnected));
    assert_eq!(zero.sent_bytes(1), 2);
}

#[test]
fn each_party_receives_exactly_one_message_per_lower_id() {
    for target in 0..5usize {
        let mut endpoints = FullMesh::new().instantiate(5);
        for i in 0..5usize {
            for j in (i + 1)..5 {
                endpoints[i].send(&[i as u8], &j).unwrap();
            }
        }
        let mut endpoint = endpoints.swap_remove(target);
        drop(endpoints);
        for i in 0..target {
            assert_eq!(bytes_of(&mut receive(&mut endpoint, i)), vec![i as u8]);
        }
        let peer = if target == 0 { 1 } else { 0 };
        assert_eq!(endpoint.buffered_count(peer), 0);
        assert!(matches!(endpoint.receive(&peer), Err(CommError::Disconnected)));
    }
}

#[test]
fn overhead_delays_the_last_party() {
    let mut endpoints = FullMesh::new_with_overhead(SECOND, SECOND).instantiate(5);
    let now = endpoints[0].clock().now() + SECOND;
    for i in 0..5usize {
        for j in (i + 1)..5 {
            endpoints[i].send_at(&[i as u8], &j, now).unwrap();
        }
    }
    let mut last_release = 0;
    for i in 0..4usize {
        let released = collect(&mut receive(&mut endpoints[4], i));
        assert_eq!(released, vec![(now + (i as u128 + 2) * SECOND, i as u8)]);
        last_release = released[0].0;
    }
    assert_eq!(last_release - now, 5 * SECOND);
    assert_eq!(endpoints[4].next_vacancy(), now + 5 * SECOND);

    let mut plain = FullMesh::new().instantiate(5);
    let now = plain[0].clock().now() + SECOND;
    for i in 0..4usize {
        plain[i].send_at(&[i as u8], &4, now).unwrap();
    }
    for i in 0..4usize {
        assert_eq!(collect(&mut receive(&mut plain[4], i)), vec![(now, i as u8)]);
    }
}

#[test]
fn broadcast_without_peers_sends_nothing() {
    let mut lonely = FullMesh::new().instantiate(1);
    assert_eq!(lonely[0].broadcast(&[1, 2, 3]), Ok(()));
    assert_eq!(lonely[0].peer_count(), 0);
}

#[test]
fn a_buffered_message_that_fits_is_taken_out() {
    let mut endpoints = FullMesh::new_with_overhead(0, 3).instantiate_at(3, Clock::start(), 100);
    let endpoint = &mut endpoints[0];
    endpoint.put_buffered(1, 500, vec![1, 2]);
    endpoint.put_buffered(1, u128::MAX, vec![3]);
    endpoint.put_buffered(2, 50, vec![4]);
    let mut stream = endpoint.receive(&1).unwrap().unwrap();
    assert_eq!(collect(&mut stream), vec![(503, 1), (506, 2)]);
    assert_eq!(endpoint.next_vacancy(), 506);
    assert_eq!(endpoint.buffered_count(1), 1);
    assert!(matches!(endpoint.receive(&1), Err(CommError::TimeOverflow)));
    assert_eq!(endpoint.buffered_count(1), 1);
    assert_eq!(endpoint.buffered_count(2), 1);
    assert_eq!(endpoint.next_vacancy(), 506);
    let mut stream = endpoint.receive(&2).unwrap().unwrap();
    assert_eq!(collect(&mut stream), vec![(509, 4)]);
}

#[test]
fn settling_a_send_counts_what_the_pipe_took() {
    let mut endpoints = FullMesh::new().instantiate(3);
    let endpoint = &mut endpoints[1];
    assert_eq!(endpoint.settle_send(true, 7, &2), Ok(()));
    assert_eq!(endpoint.settle_send(false, 5, &2), Err(CommError::Disconnected));
    assert_eq!(endpoint.settle_send(true, 2, &0), Ok(()));
    assert_eq!(endpoint.sent_bytes(2), 7);
    assert_eq!(endpoint.sent_bytes(0), 2);
}

#[test]
fn settling_a_broadcast_counts_for_every_peer_or_none() {
    let mut endpoints = FullMesh::new().instantiate(3);
    let endpoint = &mut endpoints[1];
    assert_eq!(endpoint.settle_broadcast(None, 4), Ok(()));
    assert_eq!(
        endpoint.settle_broadcast(Some(CommError::Disconnected), 9),
        Err(CommError::Disconnected)
    );
    assert_eq!(
        endpoint.settle_broadcast(Some(CommError::TimeOverflow), 9),
        Err(CommError::TimeOverflow)
    );
    assert_eq!(endpoint.settle_broadcast(None, 1), Ok(()));
    assert_eq!(endpoint.sent_bytes(0), 5);
    assert_eq!(endpoint.sent_bytes(2), 5);
}

#[test]
fn the_link_is_vacant_from_the_instant_of_construction() {
    let clock = Clock::start();
    let (to_zero, at_zero) = open(0);
    let (to_one, at_one) = open(1);
    let zero = Channels::new_at(0, vec![to_one], at_zero, 1, 2, clock, 777);
    assert_eq!(zero.next_vacancy(), 777);
    assert_eq!(zero.latency(), 1);
    assert_eq!(zero.nanos_per_byte(), 2);
    let before = clock.now();
    let one = Channels::new(1, vec![to_zero], at_one, 1, 2, clock);
    let after = clock.now();
    assert!(before <= one.next_vacancy() && one.next_vacancy() <= after);

    let endpoints = FullMesh::new().instantiate_at(4, clock, 42);
    assert_eq!(endpoints.len(), 4);
    for (id, endpoint) in endpoints.iter().enumerate() {
        assert_eq!(endpoint.id(), id);
        assert_eq!(endpoint.next_vacancy(), 42);
    }
    let endpoints = FullMesh::new().instantiate(3);
    let later = endpoints[0].clock().now();
    for endpoint in &endpoints {
        assert_eq!(endpoint.next_vacancy(), endpoints[0].next_vacancy());
        assert!(endpoint.next_vacancy() <= later);
    }
}

#[test]
fn spans_are_split_into_seconds_and_nanoseconds() {
    assert_eq!(span_until(10, 25), 15);
    assert_eq!(span_until(25, 25), 0);
    assert_eq!(span_until(30, 25), 0);
    assert_eq!(split_span(0), (0, 0));
    assert_eq!(split_span(999_999_999), (0, 999_999_999));
    assert_eq!(split_span(2_500_000_001), (2, 500_000_001));
    let most = u64::MAX as u128 * SECOND + 999_999_999;
    assert_eq!(split_span(most), (u64::MAX, 999_999_999));
    assert_eq!(split_span(most + 1), (u64::MAX, 0));
    assert_eq!(split_span(u128::MAX), (u64::MAX, (u128::MAX % SECOND) as u32));
}

#[test]
fn broadcast_at_stamps_every_envelope_alike() {
    let mut endpoints = FullMesh::new_with_overhead(10, 1).instantiate_at(3, Clock::start(), 0);
    assert_eq!(endpoints[1].broadcast_at(&[6, 7], 1000), Ok(()));
    assert_eq!(endpoints[1].sent_bytes(0), 2);
    assert_eq!(endpoints[1].sent_bytes(2), 2);
    assert_eq!(collect(&mut receive(&mut endpoints[0], 1)), vec![(1011, 6), (1012, 7)]);
    assert_eq!(collect(&mut receive(&mut endpoints[2], 1)), vec![(1011, 6), (1012, 7)]);
    assert_eq!(endpoints[1].broadcast_at(&[8], u128::MAX - 9), Err(CommError::TimeOverflow));
    assert_eq!(endpoints[1].sent_bytes(0), 2);
    let mut lonely = FullMesh::new_with_overhead(10, 1).instantiate(1);
    assert_eq!(lonely[0].broadcast_at(&[8], u128::MAX), Ok(()));
    let gone = endpoints.pop().unwrap();
    drop(gone);
    assert_eq!(endpoints[1].broadcast_at(&[9], 2000), Err(CommError::Disconnected));
    assert_eq!(endpoints[1].sent_bytes(0), 2);
}

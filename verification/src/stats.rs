//! Timing records of single parties, and a flat collection of them.

use crate::clock::{instant_elapsed, instant_now};
use std::time::{Duration, Instant};
use vstd::prelude::*;

verus! {

/// A measured interval as the contracts speak of it: its name and how long
/// it took.
pub type Measurement = (Seq<char>, Duration);

/// The view of a list of named durations.
pub open spec fn measurements(list: Seq<(String, Duration)>) -> Seq<Measurement> {
    list.map_values(|m: (String, Duration)| (m.0@, m.1))
}

/// The statistics of several parties, in the order in which they came in.
#[derive(Debug)]
pub struct AggregatedStats {
    _name: String,
    stats: Vec<PartyStats>,
}

impl View for AggregatedStats {
    type V = Seq<Seq<Measurement>>;

    /// The records incorporated so far, oldest first.
    closed spec fn view(&self) -> Seq<Seq<Measurement>> {
        self.stats@.map_values(|s: PartyStats| s@)
    }
}

impl AggregatedStats {
    /// The name under which the statistics are tracked.
    pub closed spec fn name(&self) -> Seq<char> {
        self._name@
    }

    /// Constructs an empty aggregate with the given name.
    pub fn new(name: String) -> (aggregate: Self)
        ensures
            aggregate.name() == name@,
            aggregate@ == Seq::<Seq<Measurement>>::empty(),
    {
        let aggregate = AggregatedStats { _name: name, stats: Vec::new() };
        assert(aggregate@ =~= Seq::<Seq<Measurement>>::empty());
        aggregate
    }

    /// Incorporates one party's statistics behind those already held.
    pub fn incorporate_party_stats(&mut self, party_stats: PartyStats)
        ensures
            final(self)@ == old(self)@.push(party_stats@),
            final(self).name() == old(self).name(),
    {
        self.stats.push(party_stats);
        assert(self@ =~= old(self)@.push(party_stats@));
    }

    /// Incorporates the statistics of all parties of one run, in the order
    /// of the party ids.
    pub fn incorporate_all(&mut self, records: Vec<PartyStats>)
        ensures
            final(self)@ == old(self)@ + records@.map_values(|s: PartyStats| s@),
            final(self).name() == old(self).name(),
    {
        let ghost all = records@.map_values(|s: PartyStats| s@);
        let mut records = records;
        let ghost mut taken: int = 0;
        assert(self@ =~= old(self)@ + all.take(0));
        while records.len() > 0
            invariant
                0 <= taken <= all.len(),
                records@.map_values(|s: PartyStats| s@) == all.skip(taken),
                self@ == old(self)@ + all.take(taken),
                self.name() == old(self).name(),
            decreases records.len(),
        {
            let ghost rest = records@.map_values(|s: PartyStats| s@);
            let record = records.remove(0);
            proof {
                assert(rest.len() == all.len() - taken);
                assert(record@ == rest[0]);
                assert(rest[0] == all[taken]);
                assert(records@.map_values(|s: PartyStats| s@) =~= rest.skip(1));
                assert(rest.skip(1) =~= all.skip(taken + 1));
            }
            self.incorporate_party_stats(record);
            proof {
                assert(self@ =~= old(self)@ + all.take(taken + 1));
                taken = taken + 1;
            }
        }
        assert(all.take(taken) =~= all);
    }

    /// The number of records held.
    pub fn len(&self) -> (n: usize)
        ensures
            n == self@.len(),
    {
        self.stats.len()
    }

    /// The record that came in as number `k`.
    pub fn record(&self, k: usize) -> (record: &PartyStats)
        requires
            k < self@.len(),
        ensures
            record@ == self@[k as int],
    {
        &self.stats[k]
    }
}

/// The durations that one party measured, in the order in which its timers
/// were stopped.
#[derive(Debug)]
pub struct PartyStats {
    measured_durations: Vec<(String, Duration)>,
}

impl View for PartyStats {
    type V = Seq<Measurement>;

    closed spec fn view(&self) -> Seq<Measurement> {
        measurements(self.measured_durations@)
    }
}

impl PartyStats {
    /// A record without measurements.
    pub fn new() -> (record: Self)
        ensures
            record@ == Seq::<Measurement>::empty(),
    {
        let record = PartyStats { measured_durations: Vec::new() };
        assert(record@ =~= Seq::<Measurement>::empty());
        record
    }

    /// One record without measurements for each of `n_parties` parties.
    pub fn fresh(n_parties: usize) -> (records: Vec<PartyStats>)
        ensures
            records@.len() == n_parties,
            forall|i: int| 0 <= i < n_parties ==> (#[trigger] records@[i])@.len() == 0,
    {
        let mut records: Vec<PartyStats> = Vec::new();
        let mut i: usize = 0;
        while i < n_parties
            invariant
                i <= n_parties,
                records@.len() == i,
                forall|j: int| 0 <= j < i ==> (#[trigger] records@[j])@.len() == 0,
            decreases n_parties - i,
        {
            records.push(PartyStats::new());
            i = i + 1;
        }
        records
    }

    /// Records that the interval `name` took `duration`.
    pub fn write_duration(&mut self, name: String, duration: Duration)
        ensures
            final(self)@ == old(self)@.push((name@, duration)),
    {
        self.measured_durations.push((name, duration));
        assert(self@ =~= old(self)@.push((name@, duration)));
    }

    /// The number of measurements recorded.
    pub fn len(&self) -> (n: usize)
        ensures
            n == self@.len(),
    {
        self.measured_durations.len()
    }

    /// The name of measurement `k`.
    pub fn name_at(&self, k: usize) -> (name: String)
        requires
            k < self@.len(),
        ensures
            name@ == self@[k as int].0,
    {
        self.measured_durations[k].0.clone()
    }

    /// The duration of measurement `k`.
    pub fn duration_at(&self, k: usize) -> (duration: Duration)
        requires
            k < self@.len(),
        ensures
            duration == self@[k as int].1,
    {
        self.measured_durations[k].1
    }

    /// Creates a timer with the given `name` that starts running at once.
    pub fn create_timer(&self, name: &str) -> (timer: Timer)
        ensures
            timer.name() == name@,
    {
        Timer::new(name.to_owned())
    }

    /// Stops the `timer` and records the time it measured under its name.
    /// How long that was depends on the clock; all else is fixed.
    pub fn stop_timer(&mut self, timer: Timer)
        ensures
            final(self)@.len() == old(self)@.len() + 1,
            final(self)@.drop_last() == old(self)@,
            final(self)@.last().0 == timer.name(),
    {
        let (name, duration) = timer.stop();
        self.write_duration(name, duration);
        assert(self@.drop_last() =~= old(self)@);
    }
}

/// A timer that measures from its creation until it is stopped.
pub struct Timer {
    name: String,
    start_time: Instant,
}

impl Timer {
    /// The name of the interval that the timer measures.
    pub closed spec fn name(&self) -> Seq<char> {
        self.name@
    }

    /// Starts a timer with the given name.
    pub fn new(name: String) -> (timer: Self)
        ensures
            timer.name() == name@,
    {
        Timer { name, start_time: instant_now() }
    }

    /// The timer's name and the time passed since it was started.
    pub fn stop(&self) -> (measured: (String, Duration))
        ensures
            measured.0@ == self.name(),
    {
        (self.name.clone(), instant_elapsed(&self.start_time))
    }
}

} // verus!

//! Timing records gathered over the repetitions of one experiment, and the
//! tables that are drawn from them.

use crate::stats::{measurements, Measurement};
pub use crate::stats::Timer;
use std::time::Duration;
use vstd::prelude::*;

verus! {

/// The timings of one repetition: one record per party.
pub type Repetition = Seq<Seq<Measurement>>;

/// A list of names as the contracts speak of it.
pub open spec fn texts(names: Seq<String>) -> Seq<Seq<char>> {
    names.map_values(|n: String| n@)
}

/// The names seen so far with `name` noted: behind the others if it is new,
/// not at all if it is there already.
pub open spec fn note_name(seen: Seq<Seq<char>>, name: Seq<char>) -> Seq<Seq<char>> {
    if seen.contains(name) {
        seen
    } else {
        seen.push(name)
    }
}

/// The names seen once the measurements of `record` are noted in their
/// order.
pub open spec fn names_in_record(seen: Seq<Seq<char>>, record: Seq<Measurement>) -> Seq<Seq<char>>
    decreases record.len(),
{
    if record.len() == 0 {
        seen
    } else {
        note_name(names_in_record(seen, record.drop_last()), record.last().0)
    }
}

/// The names seen once the records of `repetition` are noted in their order.
pub open spec fn names_in_repetition(seen: Seq<Seq<char>>, repetition: Repetition) -> Seq<
    Seq<char>,
>
    decreases repetition.len(),
{
    if repetition.len() == 0 {
        seen
    } else {
        names_in_record(names_in_repetition(seen, repetition.drop_last()), repetition.last())
    }
}

/// The names seen once the repetitions `rows` are noted in their order.
pub open spec fn names_in_rows(seen: Seq<Seq<char>>, rows: Seq<Repetition>) -> Seq<Seq<char>>
    decreases rows.len(),
{
    if rows.len() == 0 {
        seen
    } else {
        names_in_repetition(names_in_rows(seen, rows.drop_last()), rows.last())
    }
}

/// The durations in `record` that were measured under `name`, in their
/// order.
pub open spec fn named_in_record(record: Seq<Measurement>, name: Seq<char>) -> Seq<Duration>
    decreases record.len(),
{
    if record.len() == 0 {
        Seq::empty()
    } else if record.last().0 == name {
        named_in_record(record.drop_last(), name).push(record.last().1)
    } else {
        named_in_record(record.drop_last(), name)
    }
}

/// The durations in `repetition` that were measured under `name`: those of
/// its first record, then those of its second, and so on.
pub open spec fn named_in_repetition(repetition: Repetition, name: Seq<char>) -> Seq<Duration>
    decreases repetition.len(),
{
    if repetition.len() == 0 {
        Seq::empty()
    } else {
        named_in_repetition(repetition.drop_last(), name) + named_in_record(
            repetition.last(),
            name,
        )
    }
}

/// Whether `name` is among `names`.
pub fn holds_name(names: &Vec<String>, name: &String) -> (found: bool)
    ensures
        found == texts(names@).contains(name@),
{
    let mut k: usize = 0;
    while k < names.len()
        invariant
            k <= names.len(),
            forall|j: int| 0 <= j < k ==> texts(names@)[j] != name@,
        decreases names.len() - k,
    {
        if names[k] == *name {
            assert(texts(names@)[k as int] == name@);
            return true;
        }
        k = k + 1;
    }
    false
}

/// Noting names never repeats one.
pub proof fn lemma_names_stay_distinct(seen: Seq<Seq<char>>, rows: Seq<Repetition>)
    requires
        seen.no_duplicates(),
    ensures
        names_in_rows(seen, rows).no_duplicates(),
    decreases rows.len(),
{
    if rows.len() > 0 {
        lemma_names_stay_distinct(seen, rows.drop_last());
        lemma_repetition_names_distinct(names_in_rows(seen, rows.drop_last()), rows.last());
    }
}

/// Noting the names of one repetition never repeats one.
pub proof fn lemma_repetition_names_distinct(seen: Seq<Seq<char>>, repetition: Repetition)
    requires
        seen.no_duplicates(),
    ensures
        names_in_repetition(seen, repetition).no_duplicates(),
    decreases repetition.len(),
{
    if repetition.len() > 0 {
        lemma_repetition_names_distinct(seen, repetition.drop_last());
        lemma_record_names_distinct(
            names_in_repetition(seen, repetition.drop_last()),
            repetition.last(),
        );
    }
}

/// Noting the names of one record never repeats one.
pub proof fn lemma_record_names_distinct(seen: Seq<Seq<char>>, record: Seq<Measurement>)
    requires
        seen.no_duplicates(),
    ensures
        names_in_record(seen, record).no_duplicates(),
    decreases record.len(),
{
    if record.len() > 0 {
        lemma_record_names_distinct(seen, record.drop_last());
    }
}

/// The aggregated statistics of the repetitions of one experiment.
#[derive(Debug)]
pub struct AggregatedStats {
    _name: String,
    party_names: Vec<String>,
    timings: Vec<Vec<Timings>>,
}

/// The view of one repetition's records.
pub open spec fn repetition_view(records: Seq<Timings>) -> Repetition {
    records.map_values(|t: Timings| t@)
}

impl View for AggregatedStats {
    type V = Seq<Repetition>;

    /// The repetitions incorporated so far, oldest first.
    closed spec fn view(&self) -> Seq<Repetition> {
        self.timings@.map_values(|r: Vec<Timings>| repetition_view(r@))
    }
}

impl AggregatedStats {
    /// The name under which the statistics are tracked.
    pub closed spec fn name(&self) -> Seq<char> {
        self._name@
    }

    /// The names of the parties, by party id.
    pub closed spec fn party_names(&self) -> Seq<Seq<char>> {
        self.party_names@.map_values(|n: String| n@)
    }

    /// Constructs an empty aggregate with the given name for the given
    /// parties.
    pub fn new(name: String, party_names: Vec<String>) -> (aggregate: Self)
        ensures
            aggregate.name() == name@,
            aggregate.party_names() == party_names@.map_values(|n: String| n@),
            aggregate@ == Seq::<Repetition>::empty(),
    {
        let aggregate = AggregatedStats { _name: name, party_names, timings: Vec::new() };
        assert(aggregate@ =~= Seq::<Repetition>::empty());
        aggregate
    }

    /// Incorporates the records of one repetition, one per party, behind
    /// those already held.
    pub fn incorporate_party_stats(&mut self, party_stats: Vec<Timings>)
        ensures
            final(self)@ == old(self)@.push(repetition_view(party_stats@)),
            final(self).name() == old(self).name(),
            final(self).party_names() == old(self).party_names(),
    {
        self.timings.push(party_stats);
        assert(self@ =~= old(self)@.push(repetition_view(party_stats@)));
    }

    /// The names of the parties, by party id.
    pub fn party_name_list(&self) -> (names: Vec<String>)
        ensures
            texts(names@) == self.party_names(),
    {
        let mut names: Vec<String> = Vec::new();
        let mut i: usize = 0;
        while i < self.party_names.len()
            invariant
                i <= self.party_names.len(),
                names@.len() == i,
                forall|j: int| 0 <= j < i ==> (#[trigger] names@[j])@ == self.party_names@[j]@,
            decreases self.party_names.len() - i,
        {
            names.push(self.party_names[i].clone());
            i = i + 1;
        }
        assert(texts(names@) =~= self.party_names());
        names
    }

    /// The number of repetitions held.
    pub fn repetitions(&self) -> (n: usize)
        ensures
            n == self@.len(),
    {
        self.timings.len()
    }

    /// The number of records in repetition `repetition`.
    pub fn records_in(&self, repetition: usize) -> (n: usize)
        requires
            repetition < self@.len(),
        ensures
            n == self@[repetition as int].len(),
    {
        self.timings[repetition].len()
    }

    /// The number of repetitions that a summary draws on: one per party
    /// name, as far as there are that many.
    pub closed spec fn summarized(&self) -> nat {
        if self.timings.len() <= self.party_names.len() {
            self.timings.len() as nat
        } else {
            self.party_names.len() as nat
        }
    }

    /// The number of repetitions that a summary draws on.
    pub fn summarized_rows(&self) -> (rows: usize)
        ensures
            rows == self.summarized(),
            rows <= self@.len(),
            rows <= self.party_names().len(),
            rows == self@.len() || rows == self.party_names().len(),
    {
        if self.timings.len() <= self.party_names.len() {
            self.timings.len()
        } else {
            self.party_names.len()
        }
    }

    /// The names of all intervals measured in the summarized repetitions,
    /// each once, in the order in which they first appear.
    pub fn timing_names(&self) -> (names: Vec<String>)
        ensures
            texts(names@) == names_in_rows(Seq::empty(), self@.take(self.summarized() as int)),
            texts(names@).no_duplicates(),
    {
        let rows: usize = self.summarized_rows();
        let mut names: Vec<String> = Vec::new();
        let mut r: usize = 0;
        assert(texts(names@) =~= Seq::<Seq<char>>::empty());
        assert(self@.take(0) =~= Seq::<Repetition>::empty());
        while r < rows
            invariant
                r <= rows,
                rows <= self.timings.len(),
                rows == self.summarized(),
                texts(names@) == names_in_rows(Seq::empty(), self@.take(r as int)),
            decreases rows - r,
        {
            note_repetition(&mut names, &self.timings[r]);
            proof {
                assert(self@.take(r + 1).drop_last() =~= self@.take(r as int));
                assert(self@.take(r + 1).last() == repetition_view(self.timings[r as int]@));
            }
            r = r + 1;
        }
        proof {
            lemma_names_stay_distinct(Seq::empty(), self@.take(rows as int));
        }
        names
    }

    /// The durations measured under `name` in the summarized repetition
    /// `row`, record by record; none where `row` is not summarized.
    pub fn samples(&self, row: usize, name: &String) -> (durations: Vec<Duration>)
        ensures
            row < self.summarized() ==> durations@ == named_in_repetition(
                self@[row as int],
                name@,
            ),
            row >= self.summarized() ==> durations@.len() == 0,
    {
        let mut durations: Vec<Duration> = Vec::new();
        if row >= self.summarized_rows() {
            return durations;
        }
        let records = &self.timings[row];
        let ghost repetition = repetition_view(records@);
        let mut p: usize = 0;
        assert(repetition.take(0) =~= Seq::<Seq<Measurement>>::empty());
        while p < records.len()
            invariant
                p <= records.len(),
                repetition == repetition_view(records@),
                durations@ == named_in_repetition(repetition.take(p as int), name@),
            decreases records.len() - p,
        {
            records[p].collect_named(name, &mut durations);
            proof {
                assert(repetition.take(p + 1).drop_last() =~= repetition.take(p as int));
                assert(repetition.take(p + 1).last() == records[p as int]@);
            }
            p = p + 1;
        }
        assert(repetition.take(records.len() as int) =~= repetition);
        durations
    }

    /// The header of one party's table: the names of the intervals that the
    /// party measured in the first repetition, in their order.
    pub fn party_header(&self, party_id: usize) -> (header: Vec<String>)
        requires
            self@.len() > 0,
            party_id < self@[0].len(),
        ensures
            header@.len() == self@[0][party_id as int].len(),
            forall|k: int| 0 <= k < header@.len() ==> (#[trigger] header@[k])@ == self@[0][party_id as int][k].0,
    {
        self.timings[0][party_id].names()
    }

    /// The rows of one party's table: for each repetition, the durations
    /// that the party measured in it, in their order.
    pub fn party_rows(&self, party_id: usize) -> (rows: Vec<Vec<Duration>>)
        requires
            forall|r: int| 0 <= r < self@.len() ==> party_id < (#[trigger] self@[r]).len(),
        ensures
            rows@.len() == self@.len(),
            forall|r: int|
                0 <= r < rows@.len() ==> (#[trigger] rows@[r])@ == self@[r][party_id as int].map_values(
                    |m: Measurement| m.1,
                ),
    {
        let mut rows: Vec<Vec<Duration>> = Vec::new();
        let mut r: usize = 0;
        while r < self.timings.len()
            invariant
                r <= self.timings.len(),
                rows@.len() == r,
                forall|q: int| 0 <= q < self@.len() ==> party_id < (#[trigger] self@[q]).len(),
                forall|q: int|
                    0 <= q < r ==> (#[trigger] rows@[q])@ == self@[q][party_id as int].map_values(
                        |m: Measurement| m.1,
                    ),
            decreases self.timings.len() - r,
        {
            assert(party_id < self@[r as int].len());
            let row = self.timings[r][party_id].durations();
            rows.push(row);
            r = r + 1;
        }
        rows
    }
}

/// Notes the names of one repetition's records behind those in `names`.
pub fn note_repetition(names: &mut Vec<String>, records: &Vec<Timings>)
    ensures
        texts(final(names)@) == names_in_repetition(texts(old(names)@), repetition_view(records@)),
{
    let ghost repetition = repetition_view(records@);
    let mut p: usize = 0;
    assert(repetition.take(0) =~= Seq::<Seq<Measurement>>::empty());
    while p < records.len()
        invariant
            p <= records.len(),
            repetition == repetition_view(records@),
            texts(names@) == names_in_repetition(texts(old(names)@), repetition.take(p as int)),
        decreases records.len() - p,
    {
        records[p].note_names(names);
        proof {
            assert(repetition.take(p + 1).drop_last() =~= repetition.take(p as int));
            assert(repetition.take(p + 1).last() == records[p as int]@);
        }
        p = p + 1;
    }
    assert(repetition.take(records.len() as int) =~= repetition);
}

/// The durations that one party measured in one repetition, in the order in
/// which its timers were stopped.
#[derive(Debug)]
pub struct Timings {
    measured_durations: Vec<(String, Duration)>,
}

impl View for Timings {
    type V = Seq<Measurement>;

    closed spec fn view(&self) -> Seq<Measurement> {
        measurements(self.measured_durations@)
    }
}

impl Timings {
    /// A record without measurements.
    pub fn new() -> (record: Self)
        ensures
            record@ == Seq::<Measurement>::empty(),
    {
        let record = Timings { measured_durations: Vec::new() };
        assert(record@ =~= Seq::<Measurement>::empty());
        record
    }

    /// One record without measurements for each of `n_parties` parties.
    pub fn fresh(n_parties: usize) -> (records: Vec<Timings>)
        ensures
            records@.len() == n_parties,
            forall|i: int| 0 <= i < n_parties ==> (#[trigger] records@[i])@.len() == 0,
    {
        let mut records: Vec<Timings> = Vec::new();
        let mut i: usize = 0;
        while i < n_parties
            invariant
                i <= n_parties,
                records@.len() == i,
                forall|j: int| 0 <= j < i ==> (#[trigger] records@[j])@.len() == 0,
            decreases n_parties - i,
        {
            records.push(Timings::new());
            i = i + 1;
        }
        records
    }

    /// Records that the interval `name` took `duration`.
    pub fn write_duration(&mut self, name: String, duration: Duration)
        ensures
            final(self)@ == old(self)@.push((name@, duration)),
    {
        self.measured_durations.push((name, duration));
        assert(self@ =~= old(self)@.push((name@, duration)));
    }

    /// Creates a timer with the given `name` that starts running at once.
    pub fn create_timer(&self, name: &str) -> (timer: Timer)
        ensures
            timer.name() == name@,
    {
        Timer::new(name.to_owned())
    }

    /// Stops the `timer` and records the time it measured under its name.
    /// How long that was depends on the clock; all else is fixed.
    pub fn stop_timer(&mut self, timer: Timer)
        ensures
            final(self)@.len() == old(self)@.len() + 1,
            final(self)@.drop_last() == old(self)@,
            final(self)@.last().0 == timer.name(),
    {
        let (name, duration) = timer.stop();
        self.write_duration(name, duration);
        assert(self@.drop_last() =~= old(self)@);
    }

    /// The number of measurements recorded.
    pub fn len(&self) -> (n: usize)
        ensures
            n == self@.len(),
    {
        self.measured_durations.len()
    }

    /// Notes the names of this record's measurements behind those in
    /// `names`, each new name once.
    pub fn note_names(&self, names: &mut Vec<String>)
        ensures
            texts(final(names)@) == names_in_record(texts(old(names)@), self@),
    {
        let mut k: usize = 0;
        assert(self@.take(0) =~= Seq::<Measurement>::empty());
        while k < self.measured_durations.len()
            invariant
                k <= self.measured_durations.len(),
                texts(names@) == names_in_record(texts(old(names)@), self@.take(k as int)),
            decreases self.measured_durations.len() - k,
        {
            let ghost before = texts(names@);
            if !holds_name(names, &self.measured_durations[k].0) {
                names.push(self.measured_durations[k].0.clone());
                assert(texts(names@) =~= before.push(self@[k as int].0));
            }
            proof {
                assert(self@.take(k + 1).drop_last() =~= self@.take(k as int));
                assert(self@.take(k + 1).last() == self@[k as int]);
            }
            k = k + 1;
        }
        assert(self@.take(self@.len() as int) =~= self@);
    }

    /// Puts the durations measured under `name` behind those in
    /// `durations`, in their order.
    pub fn collect_named(&self, name: &String, durations: &mut Vec<Duration>)
        ensures
            final(durations)@ == old(durations)@ + named_in_record(self@, name@),
    {
        let mut k: usize = 0;
        assert(self@.take(0) =~= Seq::<Measurement>::empty());
        assert(durations@ =~= old(durations)@ + Seq::<Duration>::empty());
        while k < self.measured_durations.len()
            invariant
                k <= self.measured_durations.len(),
                durations@ == old(durations)@ + named_in_record(self@.take(k as int), name@),
            decreases self.measured_durations.len() - k,
        {
            proof {
                assert(self@.take(k + 1).drop_last() =~= self@.take(k as int));
                assert(self@.take(k + 1).last() == self@[k as int]);
            }
            if self.measured_durations[k].0 == *name {
                durations.push(self.measured_durations[k].1);
                assert(durations@ =~= old(durations)@ + named_in_record(
                    self@.take(k + 1),
                    name@,
                ));
            }
            k = k + 1;
        }
        assert(self@.take(self@.len() as int) =~= self@);
    }

    /// The names of the measurements, in their order.
    pub fn names(&self) -> (names: Vec<String>)
        ensures
            names@.len() == self@.len(),
            forall|k: int| 0 <= k < names@.len() ==> (#[trigger] names@[k])@ == self@[k].0,
    {
        let mut names: Vec<String> = Vec::new();
        let mut k: usize = 0;
        while k < self.measured_durations.len()
            invariant
                k <= self.measured_durations.len(),
                names@.len() == k,
                forall|j: int| 0 <= j < k ==> (#[trigger] names@[j])@ == self@[j].0,
            decreases self.measured_durations.len() - k,
        {
            names.push(self.measured_durations[k].0.clone());
            k = k + 1;
        }
        names
    }

    /// The durations of the measurements, in their order.
    pub fn durations(&self) -> (durations: Vec<Duration>)
        ensures
            durations@ == self@.map_values(|m: Measurement| m.1),
    {
        let mut durations: Vec<Duration> = Vec::new();
        let mut k: usize = 0;
        while k < self.measured_durations.len()
            invariant
                k <= self.measured_durations.len(),
                durations@.len() == k,
                forall|j: int| 0 <= j < k ==> #[trigger] durations@[j] == self@[j].1,
            decreases self.measured_durations.len() - k,
        {
            durations.push(self.measured_durations[k].1);
            k = k + 1;
        }
        assert(durations@ =~= self@.map_values(|m: Measurement| m.1));
        durations
    }
}

} // verus!

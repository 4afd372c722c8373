//! The course of an experiment: which step the harness may take next, and
//! whether the counts it is handed fit the number of parties.

use vstd::prelude::*;

verus! {

/// Where a repetition stands.
#[derive(Clone, Copy, Debug, PartialEq, Eq, Structural)]
pub enum Phase {
    /// Nothing has been done for the repetition yet.
    Idle,
    /// The endpoints are built, one per party.
    Instantiated,
    /// One worker per party is running.
    Running,
    /// Every worker has ended and handed in its output.
    Joined,
    /// The timings of the repetition are with the collector.
    Aggregated,
}

/// What the driver reports to the harness.
#[derive(Clone, Copy, Debug, PartialEq, Eq, Structural)]
pub enum Event {
    /// The endpoints and the inputs of a repetition are there.
    Built { endpoints: usize, inputs: usize },
    /// The workers were spawned.
    Spawned { workers: usize },
    /// The workers were joined and their outputs collected.
    Collected { outputs: usize },
    /// The timing records were handed to the collector.
    Recorded { records: usize },
}

/// Why the harness refuses an event.
#[derive(Clone, Copy, Debug, PartialEq, Eq, Structural)]
pub enum HarnessError {
    /// A count differs from the number of parties.
    CountMismatch,
    /// The event does not follow the phase that the repetition is in.
    OutOfTurn,
    /// Every repetition has been run.
    Finished,
}

/// The state of an experiment as the contracts speak of it.
pub struct Course {
    pub party_count: nat,
    pub repetitions: nat,
    pub completed: nat,
    pub phase: Phase,
}

impl Course {
    /// The count that `event` carries.
    pub open spec fn count_of(event: Event) -> nat {
        match event {
            Event::Built { endpoints, inputs } => endpoints as nat,
            Event::Spawned { workers } => workers as nat,
            Event::Collected { outputs } => outputs as nat,
            Event::Recorded { records } => records as nat,
        }
    }

    /// Every count of `event` is the number of parties.
    pub open spec fn counts_fit(self, event: Event) -> bool {
        &&& Self::count_of(event) == self.party_count
        &&& event matches Event::Built { endpoints, inputs } ==> inputs == self.party_count
    }

    /// The phase that `event` leads to when it comes in turn.
    pub open spec fn follows(self, event: Event) -> Option<Phase> {
        match (self.phase, event) {
            (Phase::Idle, Event::Built { .. }) => Some(Phase::Instantiated),
            (Phase::Aggregated, Event::Built { .. }) => Some(Phase::Instantiated),
            (Phase::Instantiated, Event::Spawned { .. }) => Some(Phase::Running),
            (Phase::Running, Event::Collected { .. }) => Some(Phase::Joined),
            (Phase::Joined, Event::Recorded { .. }) => Some(Phase::Aggregated),
            _ => None,
        }
    }

    /// Every repetition has been run and recorded.
    pub open spec fn finished(self) -> bool {
        self.completed >= self.repetitions && (self.phase == Phase::Idle || self.phase
            == Phase::Aggregated)
    }

    /// The answer to `event`: the state it leads to, or why it is refused.
    /// A repetition counts as completed once its timings are recorded.
    pub open spec fn step(self, event: Event) -> Result<Course, HarnessError> {
        if self.finished() {
            Err(HarnessError::Finished)
        } else if self.follows(event) is None {
            Err(HarnessError::OutOfTurn)
        } else if !self.counts_fit(event) {
            Err(HarnessError::CountMismatch)
        } else {
            Ok(
                Course {
                    phase: self.follows(event).unwrap(),
                    completed: if event is Recorded {
                        self.completed + 1
                    } else {
                        self.completed
                    },
                    ..self
                },
            )
        }
    }

    /// No more repetitions are completed than were asked for, and one is
    /// under way only while some are left.
    pub open spec fn wf(self) -> bool {
        &&& self.completed <= self.repetitions
        &&& (self.phase == Phase::Instantiated || self.phase == Phase::Running || self.phase
            == Phase::Joined) ==> self.completed < self.repetitions
    }
}

/// The harness of one experiment: a fixed number of parties, run for a
/// fixed number of repetitions, one after the other.
pub struct Harness {
    party_count: usize,
    repetitions: usize,
    completed: usize,
    phase: Phase,
}

impl View for Harness {
    type V = Course;

    closed spec fn view(&self) -> Course {
        Course {
            party_count: self.party_count as nat,
            repetitions: self.repetitions as nat,
            completed: self.completed as nat,
            phase: self.phase,
        }
    }
}

impl Harness {
    /// A harness for `repetitions` runs of `party_count` parties, with
    /// nothing done yet.
    pub fn new(party_count: usize, repetitions: usize) -> (harness: Self)
        ensures
            harness@ == (Course {
                party_count: party_count as nat,
                repetitions: repetitions as nat,
                completed: 0,
                phase: Phase::Idle,
            }),
            harness@.wf(),
    {
        Harness { party_count, repetitions, completed: 0, phase: Phase::Idle }
    }

    /// The phase that the current repetition is in.
    pub fn phase(&self) -> (phase: Phase)
        ensures
            phase == self@.phase,
    {
        self.phase
    }

    /// The number of repetitions run and recorded.
    pub fn completed(&self) -> (n: usize)
        ensures
            n == self@.completed,
    {
        self.completed
    }

    /// Whether every repetition has been run and recorded.
    pub fn is_finished(&self) -> (done: bool)
        ensures
            done == self@.finished(),
    {
        self.completed >= self.repetitions && (self.phase == Phase::Idle || self.phase
            == Phase::Aggregated)
    }

    /// Takes the driver's report of what it has done. An event that comes
    /// in turn and carries the right counts moves the repetition on; any
    /// other is refused and changes nothing.
    pub fn advance(&mut self, event: Event) -> (outcome: Result<Phase, HarnessError>)
        requires
            old(self)@.wf(),
        ensures
            final(self)@.wf(),
            match old(self)@.step(event) {
                Ok(next) => final(self)@ == next && outcome == Ok::<Phase, HarnessError>(next.phase),
                Err(error) => final(self)@ == old(self)@ && outcome == Err::<Phase, HarnessError>(
                    error,
                ),
            },
    {
        if self.is_finished() {
            return Err(HarnessError::Finished);
        }
        let n: usize = self.party_count;
        let next: Phase = match (self.phase, event) {
            (Phase::Idle, Event::Built { endpoints, inputs }) => {
                if endpoints != n || inputs != n {
                    return Err(HarnessError::CountMismatch);
                }
                Phase::Instantiated
            },
            (Phase::Aggregated, Event::Built { endpoints, inputs }) => {
                if endpoints != n || inputs != n {
                    return Err(HarnessError::CountMismatch);
                }
                Phase::Instantiated
            },
            (Phase::Instantiated, Event::Spawned { workers }) => {
                if workers != n {
                    return Err(HarnessError::CountMismatch);
                }
                Phase::Running
            },
            (Phase::Running, Event::Collected { outputs }) => {
                if outputs != n {
                    return Err(HarnessError::CountMismatch);
                }
                Phase::Joined
            },
            (Phase::Joined, Event::Recorded { records }) => {
                if records != n {
                    return Err(HarnessError::CountMismatch);
                }
                self.completed = self.completed + 1;
                Phase::Aggregated
            },
            _ => {
                return Err(HarnessError::OutOfTurn);
            },
        };
        self.phase = next;
        Ok(next)
    }
}

/// The four events of one repetition, each with the number of parties as
/// its count.
pub open spec fn repetition_events(party_count: usize) -> Seq<Event> {
    seq![
        Event::Built { endpoints: party_count, inputs: party_count },
        Event::Spawned { workers: party_count },
        Event::Collected { outputs: party_count },
        Event::Recorded { records: party_count },
    ]
}

/// The state after the events `events`, as far as each was accepted.
pub open spec fn after_events(course: Course, events: Seq<Event>) -> Course
    decreases events.len(),
{
    if events.len() == 0 {
        course
    } else {
        let before = after_events(course, events.drop_last());
        match before.step(events.last()) {
            Ok(next) => next,
            Err(_) => before,
        }
    }
}

/// Repetitions never overlap and none is counted early: whatever events
/// come in, in whatever order, the course stays well-formed, the number of
/// completed repetitions never falls and never passes the number asked for.
pub proof fn lemma_course_stays_in_bounds(course: Course, events: Seq<Event>)
    requires
        course.wf(),
    ensures
        after_events(course, events).wf(),
        after_events(course, events).party_count == course.party_count,
        after_events(course, events).repetitions == course.repetitions,
        course.completed <= after_events(course, events).completed <= course.repetitions,
    decreases events.len(),
{
    if events.len() > 0 {
        lemma_course_stays_in_bounds(course, events.drop_last());
    }
}

/// Between two repetitions, the four events of a repetition with the right
/// counts, in their order, complete exactly one more repetition.
pub proof fn lemma_repetition_completes_one(course: Course, party_count: usize)
    requires
        course.wf(),
        course.phase == Phase::Idle || course.phase == Phase::Aggregated,
        course.completed < course.repetitions,
        course.party_count == party_count,
    ensures
        after_events(course, repetition_events(party_count)) == (Course {
            completed: course.completed + 1,
            phase: Phase::Aggregated,
            ..course
        }),
{
    let events = repetition_events(party_count);
    let e3 = events.drop_last();
    let e2 = e3.drop_last();
    let e1 = e2.drop_last();
    assert(e1.drop_last().len() == 0);
    assert(after_events(course, e1.drop_last()) == course);
    assert(e1.last() == events[0]);
    assert(e2.last() == events[1]);
    assert(e3.last() == events[2]);
    assert(after_events(course, e1).phase == Phase::Instantiated);
    assert(after_events(course, e2).phase == Phase::Running);
    assert(after_events(course, e3).phase == Phase::Joined);
}

} // verus!

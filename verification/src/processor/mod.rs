//! Draining the queue of messages and grouping what drains it.
use vstd::prelude::*;

use crate::capability::{saturated, BoxedSnapshooter};
use crate::observation::ObservationLike;
use crate::snapshot::{ItemView, Snapshot};
use crate::time::{TimeSpan, Timestamp};

pub mod mount;
pub mod telemetry;

pub use self::mount::ProcessorMount;
pub use self::telemetry::{TelemetryProcessor, TelemetryTransmitter};

verus! {

/// What one round of processing came to.
#[derive(Clone, Copy, Debug, PartialEq, Eq, Structural)]
pub struct ProcessingOutcome {
    /// Observations that were handed on, and messages that changed the tree.
    pub processed: usize,
    /// Observations that the strategy turned away.
    pub dropped: usize,
    /// What the handlers reported, added up.
    pub instruments_updated: usize,
}

impl ProcessingOutcome {
    /// The outcome of a round in which nothing happened.
    pub open spec fn nothing() -> ProcessingOutcome {
        ProcessingOutcome { processed: 0, dropped: 0, instruments_updated: 0 }
    }

    /// Both outcomes taken together: each number is the sum of the two, as
    /// far as `usize` holds it.
    pub open spec fn combined(self, other: ProcessingOutcome) -> ProcessingOutcome {
        ProcessingOutcome {
            processed: saturated(self.processed + other.processed) as usize,
            dropped: saturated(self.dropped + other.dropped) as usize,
            instruments_updated: saturated(self.instruments_updated + other.instruments_updated) as usize,
        }
    }

    /// Whether anything was processed or dropped.
    pub open spec fn happened(self) -> bool {
        self.processed > 0 || self.dropped > 0
    }

    /// Adds the numbers of `other` to those of `self`.
    pub fn combine_with(&mut self, other: &ProcessingOutcome)
        ensures
            *final(self) == old(self).combined(*other),
    {
        self.processed = self.processed.saturating_add(other.processed);
        self.dropped = self.dropped.saturating_add(other.dropped);
        self.instruments_updated = self.instruments_updated.saturating_add(other.instruments_updated);
    }

    /// Whether anything was processed or dropped.
    pub fn something_happened(&self) -> (happened: bool)
        ensures
            happened == self.happened(),
    {
        self.processed > 0 || self.dropped > 0
    }
}

impl Default for ProcessingOutcome {
    fn default() -> (outcome: ProcessingOutcome)
        ensures
            outcome == ProcessingOutcome::nothing(),
    {
        ProcessingOutcome { processed: 0, dropped: 0, instruments_updated: 0 }
    }
}

/// Which observations of a round are handed on.
#[derive(Clone, Copy, Debug, PartialEq, Eq, Structural)]
pub enum ProcessingStrategy {
    /// Hand on every observation.
    ProcessAll,
    /// Turn every observation away.
    DropAll,
    /// Hand on the observations that, when the round starts, are younger
    /// than the given age.
    DropOlderThan(TimeSpan),
}

/// A strategy with the time of the round worked into it.
#[derive(Clone, Copy, Debug, PartialEq, Eq, Structural)]
pub enum ProcessingDecider {
    ProcessAll,
    DropAll,
    /// Hand on what was made after the deadline.
    DropBeforeDeadline(Timestamp),
}

impl ProcessingStrategy {
    /// Whether a round that starts at `now` hands on an observation made at
    /// `made_at`.
    pub open spec fn admits(self, now: Timestamp, made_at: Timestamp) -> bool {
        match self {
            ProcessingStrategy::ProcessAll => true,
            ProcessingStrategy::DropAll => false,
            ProcessingStrategy::DropOlderThan(max_age) => made_at.nanos + max_age.nanos > now.nanos,
        }
    }

    /// The decider for a round that starts at `now`.
    pub open spec fn decider_at(self, now: Timestamp) -> ProcessingDecider {
        match self {
            ProcessingStrategy::ProcessAll => ProcessingDecider::ProcessAll,
            ProcessingStrategy::DropAll => ProcessingDecider::DropAll,
            ProcessingStrategy::DropOlderThan(max_age) => if max_age.nanos > now.nanos {
                ProcessingDecider::ProcessAll
            } else {
                ProcessingDecider::DropBeforeDeadline(
                    Timestamp { nanos: (now.nanos - max_age.nanos) as u64 },
                )
            },
        }
    }

    /// Works the time of the round into the strategy. The deadline is fixed
    /// here, once for the whole round.
    pub fn decider(&self, now: Timestamp) -> (decider: ProcessingDecider)
        ensures
            decider == self.decider_at(now),
            forall|made_at: Timestamp| #[trigger] decider.admits(made_at) == self.admits(now, made_at),
    {
        match *self {
            ProcessingStrategy::ProcessAll => ProcessingDecider::ProcessAll,
            ProcessingStrategy::DropAll => ProcessingDecider::DropAll,
            ProcessingStrategy::DropOlderThan(max_age) => {
                if max_age.nanos > now.nanos {
                    ProcessingDecider::ProcessAll
                } else {
                    ProcessingDecider::DropBeforeDeadline(Timestamp { nanos: now.nanos - max_age.nanos })
                }
            },
        }
    }
}

impl Default for ProcessingStrategy {
    /// Drop what is older than a minute.
    fn default() -> (strategy: ProcessingStrategy)
        ensures
            strategy == ProcessingStrategy::DropOlderThan(TimeSpan { nanos: 60_000_000_000 }),
    {
        ProcessingStrategy::DropOlderThan(TimeSpan::from_secs(60))
    }
}

impl ProcessingDecider {
    /// Whether an observation made at `made_at` is handed on.
    pub open spec fn admits(self, made_at: Timestamp) -> bool {
        match self {
            ProcessingDecider::ProcessAll => true,
            ProcessingDecider::DropAll => false,
            ProcessingDecider::DropBeforeDeadline(deadline) => made_at.nanos > deadline.nanos,
        }
    }

    /// Whether `observation` is handed on.
    pub fn should_be_processed<T: ObservationLike>(&self, observation: &T) -> (admitted: bool)
        ensures
            admitted == self.admits(observation.observed_at()),
    {
        match self {
            ProcessingDecider::ProcessAll => true,
            ProcessingDecider::DropAll => false,
            ProcessingDecider::DropBeforeDeadline(drop_deadline) => {
                observation.timestamp().nanos > drop_deadline.nanos
            },
        }
    }
}

/// With `DropOlderThan`, an observation is handed on if and only if its age
/// at the start of the round is less than the limit.
pub proof fn lemma_age_decides(max_age: TimeSpan, now: Timestamp, made_at: Timestamp)
    ensures
        ProcessingStrategy::DropOlderThan(max_age).decider_at(now).admits(made_at) <==> made_at.nanos
            > now.nanos - max_age.nanos,
        made_at.nanos < now.nanos - max_age.nanos ==> !ProcessingStrategy::DropOlderThan(max_age).admits(
            now,
            made_at,
        ),
        made_at.nanos > now.nanos - max_age.nanos ==> ProcessingStrategy::DropOlderThan(max_age).admits(
            now,
            made_at,
        ),
{
}

/// One round of processing as a processor notes it: what it was asked for
/// and what it came to.
pub struct Batch {
    pub now: Timestamp,
    pub max: usize,
    pub strategy: ProcessingStrategy,
    pub outcome: ProcessingOutcome,
}

/// Anything that can be asked to process the messages that wait for it, and
/// that can write its state into a snapshot.
///
/// `comes_to` says which outcomes a round that the implementor is asked for
/// may have, and `renders` which entries the implementor may write at a
/// given time. Unless an implementor says otherwise, any.
pub trait ProcessesTelemetryMessages: Send + 'static {
    open spec fn comes_to(
        &self,
        now: Timestamp,
        max: usize,
        strategy: ProcessingStrategy,
        outcome: ProcessingOutcome,
    ) -> bool {
        true
    }

    open spec fn renders(&self, now: Timestamp, descriptive: bool, items: Seq<(Seq<char>, ItemView)>) -> bool {
        true
    }

    /// Takes in at most `max` of the messages that wait and deals with
    /// them. `now` is the time at which the round starts.
    fn process(&mut self, now: Timestamp, max: usize, strategy: ProcessingStrategy) -> (outcome:
        ProcessingOutcome)
        ensures
            old(self).comes_to(now, max, strategy, outcome),
    ;

    /// Writes behind what `into` holds and touches nothing that is there.
    fn put_snapshot(&self, into: &mut Snapshot, now: Timestamp, descriptive: bool)
        ensures
            old(into)@.is_prefix_of(final(into)@),
            self.renders(now, descriptive, final(into)@.skip(old(into)@.len() as int)),
    ;
}

/// A processor of whatever type, with the record of the rounds it was asked
/// for, oldest first.
pub struct BoxedProcessor {
    pub inner: Box<dyn ProcessesTelemetryMessages>,
    pub batches: Ghost<Seq<Batch>>,
}

impl BoxedProcessor {
    /// The record of the rounds the processor was asked for.
    pub open spec fn batches(&self) -> Seq<Batch> {
        self.batches@
    }

    /// Whether `items` is what the processor may write at `now`.
    pub open spec fn renders(&self, now: Timestamp, descriptive: bool, items: Seq<(Seq<char>, ItemView)>) -> bool {
        self.inner.renders(now, descriptive, items)
    }

    /// Puts a processor behind a pointer. It was asked for no round yet.
    pub fn new<P: ProcessesTelemetryMessages>(processor: P) -> (boxed: BoxedProcessor)
        ensures
            boxed.batches() == Seq::<Batch>::empty(),
    {
        let inner: Box<dyn ProcessesTelemetryMessages> = Box::new(processor);
        BoxedProcessor { inner, batches: Ghost(Seq::empty()) }
    }

    /// Asks the processor for a round, notes it and says what the processor
    /// made of it.
    pub fn process(&mut self, now: Timestamp, max: usize, strategy: ProcessingStrategy) -> (outcome:
        ProcessingOutcome)
        ensures
            old(self).inner.comes_to(now, max, strategy, outcome),
            final(self).batches() == old(self).batches().push(Batch { now, max, strategy, outcome }),
    {
        let outcome = self.inner.process(now, max, strategy);
        proof {
            self.batches@ = self.batches@.push(Batch { now, max, strategy, outcome });
        }
        outcome
    }

    /// Lets the processor write into the snapshot.
    pub fn put_snapshot(&self, into: &mut Snapshot, now: Timestamp, descriptive: bool)
        ensures
            old(into)@.is_prefix_of(final(into)@),
            self.renders(now, descriptive, final(into)@.skip(old(into)@.len() as int)),
    {
        self.inner.put_snapshot(into, now, descriptive)
    }
}

/// Anything that groups processors and contributors to snapshots.
pub trait AggregatesProcessors {
    /// Adds a processor.
    fn add_processor(&mut self, processor: BoxedProcessor);

    /// Adds a contributor that only writes into snapshots.
    fn add_snapshooter(&mut self, snapshooter: BoxedSnapshooter);
}

/// All the tallies taken together, first to last.
pub open spec fn total(tallies: Seq<ProcessingOutcome>) -> ProcessingOutcome
    decreases tallies.len(),
{
    if tallies.len() == 0 {
        ProcessingOutcome::nothing()
    } else {
        total(tallies.drop_last()).combined(tallies.last())
    }
}

} // verus!

//! What a node of the tree has to be able to do: describe itself, render
//! itself into a snapshot, and handle observations.
use vstd::prelude::*;

use crate::observation::Observation;
use crate::snapshot::{ItemView, Snapshot};
use crate::time::Timestamp;

verus! {

/// The text behind an optional string slice.
pub open spec fn text_of(text: Option<&str>) -> Option<Seq<char>> {
    match text {
        Some(t) => Some(t@),
        None => None,
    }
}

/// A title and a description, shown only in descriptive snapshots.
pub trait Descriptive {
    spec fn title_text(&self) -> Option<Seq<char>>;

    spec fn description_text(&self) -> Option<Seq<char>>;

    fn title(&self) -> (title: Option<&str>)
        ensures
            text_of(title) == self.title_text(),
    ;

    fn description(&self) -> (description: Option<&str>)
        ensures
            text_of(description) == self.description_text(),
    ;
}

/// Anything that can write its state into a snapshot.
///
/// `renders` says which entries the implementor may write at a given time.
/// Unless an implementor says otherwise, it may write any. A contributor
/// that polls something outside has to leave it at that; a node of this
/// library allows exactly what its parts allow, in its fixed order.
pub trait PutsSnapshot: Send + 'static {
    open spec fn renders(&self, now: Timestamp, descriptive: bool, items: Seq<(Seq<char>, ItemView)>) -> bool {
        true
    }

    /// Writes behind what `into` holds and touches nothing that is there.
    fn put_snapshot(&self, into: &mut Snapshot, now: Timestamp, descriptive: bool)
        ensures
            old(into)@.is_prefix_of(final(into)@),
            self.renders(now, descriptive, final(into)@.skip(old(into)@.len() as int)),
    ;
}

/// Anything that observations can be handed to. What comes back is the
/// number of instruments that were updated.
///
/// `reports` says which counts the implementor may report for an
/// observation that is handed to it at a given time. Unless an implementor
/// says otherwise, it may report any.
pub trait HandlesObservations<L>: PutsSnapshot + Send + 'static {
    open spec fn reports(&self, observation: &Observation<L>, now: Timestamp, n: usize) -> bool {
        true
    }

    /// Handles an observation that is handed in at `now`.
    fn handle_observation(&mut self, observation: &Observation<L>, now: Timestamp) -> (n: usize)
        ensures
            old(self).reports(observation, now, n),
    ;
}

/// A part of a node to which the node hands observations: one of the four
/// places of a panel, or the child, handler or cockpit at a place in its
/// list.
pub enum Part {
    Counter,
    Gauge,
    Meter,
    Histogram,
    Panel(int),
    Handler(int),
    Cockpit(int),
}

/// A handler of observations of whatever type, with the record of what was
/// handed to it: the observations, oldest first, each with the number of
/// instruments that the handler said it updated.
#[verifier::reject_recursive_types(L)]
pub struct BoxedHandler<L> {
    pub inner: Box<dyn HandlesObservations<L>>,
    pub handled: Ghost<Seq<(Observation<L>, usize)>>,
}

/// A contributor to snapshots of whatever type.
pub struct BoxedSnapshooter {
    pub inner: Box<dyn PutsSnapshot>,
}

impl<L: 'static> BoxedHandler<L> {
    /// The record of what was handed to the handler.
    pub open spec fn handled(&self) -> Seq<(Observation<L>, usize)> {
        self.handled@
    }

    /// Whether `items` is what the handler may write at `now`.
    pub open spec fn renders(&self, now: Timestamp, descriptive: bool, items: Seq<(Seq<char>, ItemView)>) -> bool {
        self.inner.renders(now, descriptive, items)
    }

    /// Puts a handler behind a pointer. Nothing was handed to it yet.
    pub fn new<H: HandlesObservations<L>>(handler: H) -> (boxed: BoxedHandler<L>)
        ensures
            boxed.handled() == Seq::<(Observation<L>, usize)>::empty(),
    {
        let inner: Box<dyn HandlesObservations<L>> = Box::new(handler);
        BoxedHandler { inner, handled: Ghost(Seq::empty()) }
    }

    /// Hands `observation` to the handler, notes it and says what the
    /// handler reported.
    pub fn handle_observation(&mut self, observation: &Observation<L>, now: Timestamp) -> (n: usize)
        ensures
            old(self).inner.reports(observation, now, n),
            final(self).handled() == old(self).handled().push((*observation, n)),
    {
        let n = self.inner.handle_observation(observation, now);
        proof {
            self.handled@ = self.handled@.push((*observation, n));
        }
        n
    }

    /// Lets the handler write into the snapshot.
    pub fn put_snapshot(&self, into: &mut Snapshot, now: Timestamp, descriptive: bool)
        ensures
            old(into)@.is_prefix_of(final(into)@),
            self.renders(now, descriptive, final(into)@.skip(old(into)@.len() as int)),
    {
        self.inner.put_snapshot(into, now, descriptive)
    }
}

impl BoxedSnapshooter {
    /// Whether `items` is what the contributor may write at `now`.
    pub open spec fn renders(&self, now: Timestamp, descriptive: bool, items: Seq<(Seq<char>, ItemView)>) -> bool {
        self.inner.renders(now, descriptive, items)
    }

    /// Puts a contributor behind a pointer.
    pub fn new<S: PutsSnapshot>(snapshooter: S) -> BoxedSnapshooter {
        let inner: Box<dyn PutsSnapshot> = Box::new(snapshooter);
        BoxedSnapshooter { inner }
    }

    /// Lets the contributor write into the snapshot.
    pub fn put_snapshot(&self, into: &mut Snapshot, now: Timestamp, descriptive: bool)
        ensures
            old(into)@.is_prefix_of(final(into)@),
            self.renders(now, descriptive, final(into)@.skip(old(into)@.len() as int)),
    {
        self.inner.put_snapshot(into, now, descriptive)
    }
}

/// `after` is `before` with one more line, and that line is for `observation`.
pub open spec fn took<L>(
    before: Seq<(Observation<L>, usize)>,
    after: Seq<(Observation<L>, usize)>,
    observation: Observation<L>,
) -> bool {
    &&& after.len() == before.len() + 1
    &&& after.drop_last() =~= before
    &&& after.last().0 == observation
}

/// Each record of `after` is the record of `before` at the same place with
/// one more line for `observation`.
pub open spec fn all_took<L>(
    before: Seq<Seq<(Observation<L>, usize)>>,
    after: Seq<Seq<(Observation<L>, usize)>>,
    observation: Observation<L>,
) -> bool {
    &&& after.len() == before.len()
    &&& forall|i: int| 0 <= i < before.len() ==> took(#[trigger] before[i], after[i], observation)
}

/// The sum of the counts in the last lines of `records`.
pub open spec fn reported<L>(records: Seq<Seq<(Observation<L>, usize)>>) -> int
    decreases records.len(),
{
    if records.len() == 0 {
        0
    } else {
        reported(records.drop_last()) + records.last().last().1
    }
}

/// A count of updated instruments as far as `usize` can hold it.
pub open spec fn saturated(count: int) -> int {
    if count > usize::MAX {
        usize::MAX as int
    } else {
        count
    }
}

/// The records of a list of handlers, in the order of the list.
pub open spec fn handler_records<L: 'static>(handlers: Seq<BoxedHandler<L>>) -> Seq<Seq<(Observation<L>, usize)>> {
    Seq::new(handlers.len(), |i: int| handlers[i].handled())
}

/// What was reported adds up to no less than nothing.
pub proof fn lemma_reported_nonnegative<L>(records: Seq<Seq<(Observation<L>, usize)>>)
    ensures
        reported(records) >= 0,
    decreases records.len(),
{
    if records.len() > 0 {
        lemma_reported_nonnegative(records.drop_last());
    }
}

/// What each handler of `after` notes as its last count is a count that the
/// handler at the same place of `before` may report for `observation` at
/// `now`: the counts in the records come from the handlers.
pub open spec fn all_reported<L: 'static>(
    before: Seq<BoxedHandler<L>>,
    after: Seq<BoxedHandler<L>>,
    observation: Observation<L>,
    now: Timestamp,
) -> bool {
    forall|i: int|
        0 <= i < before.len() ==> (#[trigger] before[i]).inner.reports(
            &observation,
            now,
            after[i].handled().last().1,
        )
}

/// The first `count` handlers of a list, first to last.
pub open spec fn handlers_in_order(count: int) -> Seq<Part> {
    Seq::new(count as nat, |i: int| Part::Handler(i))
}

/// Hands `observation` to every handler, first to last, and adds up what
/// they report. `served` is the journal of the node that owns the handlers:
/// each handler is noted in it when its turn comes.
pub fn dispatch_to_handlers<L: 'static>(
    handlers: &mut Vec<BoxedHandler<L>>,
    observation: &Observation<L>,
    now: Timestamp,
    served: &mut Ghost<Seq<Part>>,
) -> (n: usize)
    ensures
        all_took(handler_records(old(handlers)@), handler_records(final(handlers)@), *observation),
        all_reported(old(handlers)@, final(handlers)@, *observation, now),
        n == saturated(reported(handler_records(final(handlers)@))),
        final(served)@ == old(served)@ + handlers_in_order(old(handlers).len() as int),
{
    let mut sum: usize = 0;
    let mut i: usize = 0;
    while i < handlers.len()
        invariant
            i <= handlers.len(),
            handlers.len() == old(handlers).len(),
            forall|j: int|
                0 <= j < i ==> took(
                    #[trigger] handler_records(old(handlers)@)[j],
                    handler_records(handlers@)[j],
                    *observation,
                ),
            forall|j: int|
                0 <= j < i ==> (#[trigger] old(handlers)@[j]).inner.reports(
                    observation,
                    now,
                    handlers@[j].handled().last().1,
                ),
            forall|j: int| i <= j < handlers.len() ==> handlers@[j] == old(handlers)@[j],
            sum == saturated(reported(handler_records(handlers@).take(i as int))),
            served@ == old(served)@ + handlers_in_order(i as int),
        decreases handlers.len() - i,
    {
        let ghost before = handlers@;
        let k = handlers[i].handle_observation(observation, now);
        proof {
            let records = handler_records(handlers@);
            assert(records.take(i as int) == handler_records(before).take(i as int));
            assert(records.take(i as int + 1).drop_last() == records.take(i as int));
            assert(records[i as int].drop_last() == handler_records(before)[i as int]);
            lemma_reported_nonnegative(records.take(i as int));
            assert(handlers_in_order(i as int).push(Part::Handler(i as int)) == handlers_in_order(
                i as int + 1,
            ));
            served@ = served@.push(Part::Handler(i as int));
        }
        sum = sum.saturating_add(k);
        i = i + 1;
    }
    proof {
        let records = handler_records(handlers@);
        assert(records.take(i as int) == records);
    }
    sum
}

} // verus!

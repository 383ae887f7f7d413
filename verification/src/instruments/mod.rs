//! Instruments and the nodes that route observations to them.
use vstd::prelude::*;
use vstd::std_specs::cmp::PartialEqSpec;

use crate::capability::{HandlesObservations, PutsSnapshot};
use crate::observation::{Observation, ObservedValue};
use crate::snapshot::{ItemView, Snapshot};
use crate::time::{TimeUnit, Timestamp};

pub mod label_filter;
pub mod panel;

pub use self::label_filter::LabelFilter;
pub use self::panel::Panel;

verus! {

/// What an instrument is told of an observation: everything but the label.
#[derive(Clone, Copy, Debug, PartialEq, Eq, Structural)]
pub enum Update {
    /// Many occurrences without a value, seen at a given time.
    Observations(u64, Timestamp),
    /// One occurrence without a value, seen at a given time.
    Observation(Timestamp),
    /// One occurrence with a value, seen at a given time.
    ObservationWithValue(ObservedValue, Timestamp),
}

/// An observation split into the label, which is owned, and the update.
pub struct LabelAndUpdate<T>(pub T, pub Update);

/// An observation split into the label, which is borrowed, and the update.
pub struct BorrowedLabelAndUpdate<'a, T: 'a>(pub &'a T, pub Update);

impl Update {
    /// The time of the occurrence.
    pub open spec fn made_at(self) -> Timestamp {
        match self {
            Update::Observations(_, timestamp) => timestamp,
            Update::Observation(timestamp) => timestamp,
            Update::ObservationWithValue(_, timestamp) => timestamp,
        }
    }

    /// The observation that splits into `label` and this update.
    pub open spec fn labelled<L>(self, label: L) -> Observation<L> {
        match self {
            Update::Observations(count, timestamp) => Observation::Observed { label, count, timestamp },
            Update::Observation(timestamp) => Observation::ObservedOne { label, timestamp },
            Update::ObservationWithValue(value, timestamp) => Observation::ObservedOneValue {
                label,
                value,
                timestamp,
            },
        }
    }

    /// Puts the label back: the observation that splits into `label` and
    /// this update.
    pub fn into_observation<L>(self, label: L) -> (observation: Observation<L>)
        ensures
            observation == self.labelled(label),
    {
        match self {
            Update::Observations(count, timestamp) => Observation::Observed { label, count, timestamp },
            Update::Observation(timestamp) => Observation::ObservedOne { label, timestamp },
            Update::ObservationWithValue(value, timestamp) => Observation::ObservedOneValue {
                label,
                value,
                timestamp,
            },
        }
    }
}

impl<L> Observation<L> {
    /// What is left of the observation when the label is taken away.
    pub open spec fn update_of(&self) -> Update {
        match self {
            Observation::Observed { count, timestamp, .. } => Update::Observations(*count, *timestamp),
            Observation::ObservedOne { timestamp, .. } => Update::Observation(*timestamp),
            Observation::ObservedOneValue { value, timestamp, .. } => Update::ObservationWithValue(
                *value,
                *timestamp,
            ),
        }
    }
}

impl<T> From<Observation<T>> for LabelAndUpdate<T> {
    fn from(obs: Observation<T>) -> (split: LabelAndUpdate<T>) {
        match obs {
            Observation::Observed { label, count, timestamp } => LabelAndUpdate(
                label,
                Update::Observations(count, timestamp),
            ),
            Observation::ObservedOne { label, timestamp } => LabelAndUpdate(
                label,
                Update::Observation(timestamp),
            ),
            Observation::ObservedOneValue { label, value, timestamp } => LabelAndUpdate(
                label,
                Update::ObservationWithValue(value, timestamp),
            ),
        }
    }
}

impl<T> vstd::std_specs::convert::FromSpecImpl<Observation<T>> for LabelAndUpdate<T> {
    open spec fn obeys_from_spec() -> bool {
        true
    }

    open spec fn from_spec(obs: Observation<T>) -> LabelAndUpdate<T> {
        LabelAndUpdate(obs.label_of(), obs.update_of())
    }
}

impl<'a, T> From<&'a Observation<T>> for BorrowedLabelAndUpdate<'a, T> {
    fn from(obs: &'a Observation<T>) -> (split: BorrowedLabelAndUpdate<'a, T>) {
        match obs {
            Observation::Observed { label, count, timestamp } => BorrowedLabelAndUpdate(
                label,
                Update::Observations(*count, *timestamp),
            ),
            Observation::ObservedOne { label, timestamp } => BorrowedLabelAndUpdate(
                label,
                Update::Observation(*timestamp),
            ),
            Observation::ObservedOneValue { label, value, timestamp } => BorrowedLabelAndUpdate(
                label,
                Update::ObservationWithValue(*value, *timestamp),
            ),
        }
    }
}

impl<'a, T> vstd::std_specs::convert::FromSpecImpl<&'a Observation<T>> for BorrowedLabelAndUpdate<'a, T> {
    open spec fn obeys_from_spec() -> bool {
        true
    }

    open spec fn from_spec(obs: &'a Observation<T>) -> BorrowedLabelAndUpdate<'a, T> {
        BorrowedLabelAndUpdate(&obs.label_of(), obs.update_of())
    }
}

/// Splitting an observation loses nothing: the update keeps the time and the
/// payload, and the label with the update gives the observation back.
pub proof fn lemma_split_is_lossless<L>(observation: Observation<L>)
    ensures
        observation.update_of().made_at() == observation.made_at(),
        observation.update_of().labelled(observation.label_of()) == observation,
{
}

/// An update with a label put to it splits into that label and that update.
pub proof fn lemma_labelled_splits_back<L>(update: Update, label: L)
    ensures
        update.labelled(label).label_of() == label,
        update.labelled(label).update_of() == update,
{
}

/// Splitting by value and splitting by reference give the same label and
/// the same update.
pub proof fn lemma_both_splits_agree<L>(observation: Observation<L>)
    ensures
        <LabelAndUpdate<L> as vstd::std_specs::convert::FromSpec<Observation<L>>>::from_spec(observation).0
            == *<BorrowedLabelAndUpdate<L> as vstd::std_specs::convert::FromSpec<&Observation<L>>>::from_spec(
            &observation,
        ).0,
        <LabelAndUpdate<L> as vstd::std_specs::convert::FromSpec<Observation<L>>>::from_spec(observation).1
            == <BorrowedLabelAndUpdate<L> as vstd::std_specs::convert::FromSpec<&Observation<L>>>::from_spec(
            &observation,
        ).1,
{
}

/// Anything that can take in an update. What comes back is the number of
/// instruments that were updated. Not every update has to change what the
/// implementor shows.
///
/// `reports` says which counts the implementor may report for an update.
/// Unless an implementor says otherwise, it may report any.
pub trait Updates {
    open spec fn reports(&self, with: &Update, n: usize) -> bool {
        true
    }

    fn update(&mut self, with: &Update) -> (n: usize)
        ensures
            old(self).reports(with, n),
    ;
}

/// What an instrument has to be able to do.
pub trait Instrument: Updates + PutsSnapshot {
}

/// Lets an instrument stand where a handler of observations is asked for.
/// It hands on the updates of those observations whose label its filter
/// accepts, and keeps the record of them: the updates handed on, oldest
/// first, each with the number of instruments that the instrument said it
/// updated.
pub struct InstrumentAdapter<L, I> {
    pub label_filter: LabelFilter<L>,
    pub instrument: I,
    pub consumed: Ghost<Seq<(Update, usize)>>,
}

impl<L: Eq + Send + 'static, I: Instrument> InstrumentAdapter<L, I> {
    /// An adapter that hands on every observation.
    pub fn new(instrument: I) -> (adapter: Self)
        ensures
            adapter.label_filter is AcceptAll,
            adapter.instrument == instrument,
            adapter.consumed@ == Seq::<(Update, usize)>::empty(),
    {
        InstrumentAdapter { label_filter: LabelFilter::AcceptAll, instrument, consumed: Ghost(Seq::empty()) }
    }

    /// An adapter that hands on the observations that `accept` accepts.
    pub fn accept(accept: LabelFilter<L>, instrument: I) -> (adapter: Self)
        ensures
            adapter.label_filter == accept,
            adapter.instrument == instrument,
            adapter.consumed@ == Seq::<(Update, usize)>::empty(),
    {
        InstrumentAdapter { label_filter: accept, instrument, consumed: Ghost(Seq::empty()) }
    }

    /// The instrument behind the adapter.
    pub fn instrument(&self) -> (instrument: &I)
        ensures
            *instrument == self.instrument,
    {
        &self.instrument
    }

    pub fn accepts_label(&self, label: &L) -> (accepted: bool)
        ensures
            L::obeys_eq_spec() ==> accepted == self.label_filter.accepts_spec(label),
    {
        self.label_filter.accepts(label)
    }
}

impl<L: Eq + Send + 'static, I: Instrument> PutsSnapshot for InstrumentAdapter<L, I> {
    open spec fn renders(&self, now: Timestamp, descriptive: bool, items: Seq<(Seq<char>, ItemView)>) -> bool {
        self.instrument.renders(now, descriptive, items)
    }

    fn put_snapshot(&self, into: &mut Snapshot, now: Timestamp, descriptive: bool) {
        self.instrument.put_snapshot(into, now, descriptive)
    }
}

impl<L: Eq + Send + 'static, I: Instrument> HandlesObservations<L> for InstrumentAdapter<L, I> {
    /// An adapter reports what its instrument reports for the update, and 0
    /// for an observation whose label its filter rejects.
    open spec fn reports(&self, observation: &Observation<L>, now: Timestamp, n: usize) -> bool {
        L::obeys_eq_spec() ==> if self.label_filter.accepts_spec(&observation.label_of()) {
            self.instrument.reports(&observation.update_of(), n)
        } else {
            n == 0
        }
    }

    /// Hands the update on if the label is accepted, notes it and reports
    /// what the instrument reports; reports 0 and leaves the instrument
    /// alone if the label is rejected.
    fn handle_observation(&mut self, observation: &Observation<L>, now: Timestamp) -> (n: usize)
        ensures
            final(self).label_filter == old(self).label_filter,
            L::obeys_eq_spec() && old(self).label_filter.accepts_spec(&observation.label_of())
                ==> final(self).consumed@ == old(self).consumed@.push((observation.update_of(), n))
                && old(self).instrument.reports(&observation.update_of(), n),
            L::obeys_eq_spec() && !old(self).label_filter.accepts_spec(&observation.label_of()) ==> n
                == 0 && *final(self) == *old(self),
    {
        let BorrowedLabelAndUpdate(label, update) = BorrowedLabelAndUpdate::from(observation);
        if self.label_filter.accepts(label) {
            let n = self.instrument.update(&update);
            proof {
                self.consumed@ = self.consumed@.push((update, n));
            }
            n
        } else {
            0
        }
    }
}

/// What the conversion between two units comes to for each unit: a
/// multiplication and a division by fixed numbers.
proof fn lemma_scaled_by_units(time: int, current_unit: TimeUnit, target_unit: TimeUnit)
    ensures
        time * current_unit.nanos() == match current_unit {
            TimeUnit::Nanoseconds => time,
            TimeUnit::Microseconds => time * 1_000,
            TimeUnit::Milliseconds => time * 1_000_000,
            TimeUnit::Seconds => time * 1_000_000_000,
        },
        time * current_unit.nanos() / target_unit.nanos() == match target_unit {
            TimeUnit::Nanoseconds => time * current_unit.nanos(),
            TimeUnit::Microseconds => time * current_unit.nanos() / 1_000,
            TimeUnit::Milliseconds => time * current_unit.nanos() / 1_000_000,
            TimeUnit::Seconds => time * current_unit.nanos() / 1_000_000_000,
        },
{
    let c = current_unit.nanos();
    let t = target_unit.nanos();
    let scaled = time * c;
    assert(c == 1 ==> time * c == time) by (nonlinear_arith);
    assert(c == 1_000 ==> time * c == time * 1_000) by (nonlinear_arith);
    assert(c == 1_000_000 ==> time * c == time * 1_000_000) by (nonlinear_arith);
    assert(c == 1_000_000_000 ==> time * c == time * 1_000_000_000) by (nonlinear_arith);
    assert(t == 1 ==> scaled / t == scaled) by (nonlinear_arith);
    assert(t == 1_000 ==> scaled / t == scaled / 1_000) by (nonlinear_arith);
    assert(t == 1_000_000 ==> scaled / t == scaled / 1_000_000) by (nonlinear_arith);
    assert(t == 1_000_000_000 ==> scaled / t == scaled / 1_000_000_000) by (nonlinear_arith);
}

/// A duration given in one unit as a whole number of another unit, rounded
/// down.
pub fn duration_to_display_value(time: u64, current_unit: TimeUnit, target_unit: TimeUnit) -> (shown: u64)
    requires
        time * current_unit.nanos() / target_unit.nanos() <= u64::MAX,
    ensures
        shown == time * current_unit.nanos() / target_unit.nanos(),
{
    proof {
        lemma_scaled_by_units(time as int, current_unit, target_unit);
    }
    match (current_unit, target_unit) {
        (TimeUnit::Nanoseconds, TimeUnit::Nanoseconds) => time,
        (TimeUnit::Nanoseconds, TimeUnit::Microseconds) => time / 1_000,
        (TimeUnit::Nanoseconds, TimeUnit::Milliseconds) => time / 1_000_000,
        (TimeUnit::Nanoseconds, TimeUnit::Seconds) => time / 1_000_000_000,
        (TimeUnit::Microseconds, TimeUnit::Nanoseconds) => time * 1_000,
        (TimeUnit::Microseconds, TimeUnit::Microseconds) => time,
        (TimeUnit::Microseconds, TimeUnit::Milliseconds) => time / 1_000,
        (TimeUnit::Microseconds, TimeUnit::Seconds) => time / 1_000_000,
        (TimeUnit::Milliseconds, TimeUnit::Nanoseconds) => time * 1_000_000,
        (TimeUnit::Milliseconds, TimeUnit::Microseconds) => time * 1_000,
        (TimeUnit::Milliseconds, TimeUnit::Milliseconds) => time,
        (TimeUnit::Milliseconds, TimeUnit::Seconds) => time / 1_000,
        (TimeUnit::Seconds, TimeUnit::Nanoseconds) => time * 1_000_000_000,
        (TimeUnit::Seconds, TimeUnit::Microseconds) => time * 1_000_000,
        (TimeUnit::Seconds, TimeUnit::Milliseconds) => time * 1_000,
        (TimeUnit::Seconds, TimeUnit::Seconds) => time,
    }
}

} // verus!

//! What a call site reports: an observation with its label and its time.
use vstd::prelude::*;

use crate::time::{TimeUnit, Timestamp};

verus! {

/// A value that was measured together with an occurrence.
#[derive(Clone, Copy, Debug, PartialEq, Eq, Structural)]
pub enum ObservedValue {
    SignedInteger(i64),
    UnsignedInteger(u64),
    Bool(bool),
    Duration(u64, TimeUnit),
    ChangedBy(i64),
}

/// One telemetry event: a label, the time it was made and what was seen.
#[derive(Debug, PartialEq, Eq)]
pub enum Observation<L> {
    /// `count` occurrences without a value; zero is legal.
    Observed { label: L, count: u64, timestamp: Timestamp },
    /// Exactly one occurrence.
    ObservedOne { label: L, timestamp: Timestamp },
    /// One occurrence that carries a measured value.
    ObservedOneValue { label: L, value: ObservedValue, timestamp: Timestamp },
}

/// Anything that was observed at a known time.
pub trait ObservationLike {
    spec fn observed_at(&self) -> Timestamp;

    fn timestamp(&self) -> (t: Timestamp)
        ensures
            t == self.observed_at(),
    ;
}

impl<L> Observation<L> {
    /// The label this observation was made under.
    pub open spec fn label_of(&self) -> L {
        match self {
            Observation::Observed { label, .. } => *label,
            Observation::ObservedOne { label, .. } => *label,
            Observation::ObservedOneValue { label, .. } => *label,
        }
    }

    /// The time this observation was made at.
    pub open spec fn made_at(&self) -> Timestamp {
        match self {
            Observation::Observed { timestamp, .. } => *timestamp,
            Observation::ObservedOne { timestamp, .. } => *timestamp,
            Observation::ObservedOneValue { timestamp, .. } => *timestamp,
        }
    }

    pub fn label(&self) -> (label: &L)
        ensures
            *label == self.label_of(),
    {
        match self {
            Observation::Observed { label, .. } => label,
            Observation::ObservedOne { label, .. } => label,
            Observation::ObservedOneValue { label, .. } => label,
        }
    }
}

impl<L: Clone> Clone for Observation<L> {
    /// A copy with a clone of the label, made at the same time with the
    /// same payload.
    fn clone(&self) -> (copy: Observation<L>)
        ensures
            cloned(self.label_of(), copy.label_of()),
            copy == (match *self {
                Observation::Observed { count, timestamp, .. } => Observation::Observed {
                    label: copy.label_of(),
                    count,
                    timestamp,
                },
                Observation::ObservedOne { timestamp, .. } => Observation::ObservedOne {
                    label: copy.label_of(),
                    timestamp,
                },
                Observation::ObservedOneValue { value, timestamp, .. } => Observation::ObservedOneValue {
                    label: copy.label_of(),
                    value,
                    timestamp,
                },
            }),
    {
        match self {
            Observation::Observed { label, count, timestamp } => Observation::Observed {
                label: label.clone(),
                count: *count,
                timestamp: *timestamp,
            },
            Observation::ObservedOne { label, timestamp } => Observation::ObservedOne {
                label: label.clone(),
                timestamp: *timestamp,
            },
            Observation::ObservedOneValue { label, value, timestamp } => Observation::ObservedOneValue {
                label: label.clone(),
                value: *value,
                timestamp: *timestamp,
            },
        }
    }
}

impl<L> ObservationLike for Observation<L> {
    open spec fn observed_at(&self) -> Timestamp {
        self.made_at()
    }

    fn timestamp(&self) -> (t: Timestamp) {
        match self {
            Observation::Observed { timestamp, .. } => *timestamp,
            Observation::ObservedOne { timestamp, .. } => *timestamp,
            Observation::ObservedOneValue { timestamp, .. } => *timestamp,
        }
    }
}

} // verus!

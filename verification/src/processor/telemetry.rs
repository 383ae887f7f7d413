//! The processor at the receiving end of the queue, and the transmitter at
//! the sending end.
use vstd::prelude::*;
use vstd::std_specs::cmp::PartialEqSpec;

use super::{total, ProcessesTelemetryMessages, ProcessingDecider, ProcessingOutcome, ProcessingStrategy};
use crate::capability::{
    all_reported, all_took, dispatch_to_handlers, handler_records, handlers_in_order,
    lemma_reported_nonnegative, reported, saturated, text_of, BoxedHandler, BoxedSnapshooter, Descriptive, Part,
    PutsSnapshot,
};
use crate::channel::{another_sender, open_channel, receive, send, Dropped, Received, TelemetryMessage};
use crate::cockpit::{
    cockpit_part, cockpit_records, cockpits_in_order, dispatch_to_cockpits, render_cockpits, Cockpit,
};
use crate::instruments::Panel;
use crate::observation::Observation;
use crate::render::{
    handler_part, lemma_none_rendered, lemma_one_more_rendered, lemma_prefix_of_prefix, render_handlers,
    render_snapshooters, rendered_in_order, snapshooter_part,
};
use crate::snapshot::{ItemKind, ItemView, Snapshot};
use crate::time::{TimeSpan, Timestamp};
use crate::util::{descriptives, is_inactive, liveness, put_default_descriptives, put_liveness};

verus! {

/// The receiving end of the queue, with the cockpits and handlers that the
/// observations are handed to.
///
/// Once the queue says that nobody is left who could send, the processor
/// never asks it again.
#[verifier::reject_recursive_types(L)]
pub struct TelemetryProcessor<L> {
    pub name: Option<String>,
    pub title: Option<String>,
    pub description: Option<String>,
    pub cockpits: Vec<Cockpit<L>>,
    pub handlers: Vec<BoxedHandler<L>>,
    pub receiver: crossbeam_channel::Receiver<TelemetryMessage<L>>,
    pub snapshooters: Vec<BoxedSnapshooter>,
    pub last_activity_at: Timestamp,
    pub max_inactivity_duration: Option<TimeSpan>,
    pub is_disconnected: bool,
    /// The journal of the processor: which cockpit and which handler was
    /// handed an observation, in the order in which it happened.
    pub served: Ghost<Seq<Part>>,
}

/// The cockpit at place `i` is the first one with the name `name`.
pub open spec fn is_first_named<L>(cockpits: Seq<Cockpit<L>>, name: Seq<char>, i: int) -> bool {
    &&& 0 <= i < cockpits.len()
    &&& cockpits[i].name_text() == Some(name)
    &&& forall|j: int| 0 <= j < i ==> (#[trigger] cockpits[j]).name_text() != Some(name)
}

/// No cockpit has the name `name`.
pub open spec fn none_named<L>(cockpits: Seq<Cockpit<L>>, name: Seq<char>) -> bool {
    forall|j: int| 0 <= j < cockpits.len() ==> (#[trigger] cockpits[j]).name_text() != Some(name)
}

impl<L> TelemetryProcessor<L> {
    /// The text of the name, if the processor has one.
    pub open spec fn name_text(&self) -> Option<Seq<char>> {
        match self.name {
            Some(name) => Some(name@),
            None => None,
        }
    }

    /// Nothing but the cockpits, the handlers, the journal and the mark of
    /// disconnection differs between `self` and `after`, and of cockpits and handlers
    /// there are no fewer than before.
    pub open spec fn same_wiring(&self, after: &TelemetryProcessor<L>) -> bool {
        &&& *after == TelemetryProcessor {
            cockpits: after.cockpits,
            handlers: after.handlers,
            is_disconnected: after.is_disconnected,
            served: after.served,
            ..*self
        }
        &&& after.cockpits.len() >= self.cockpits.len()
        &&& after.handlers.len() >= self.handlers.len()
    }

    /// A processor as `new_pair` makes it: created at `now` with the given
    /// name and with nothing else in it.
    pub open spec fn is_fresh(&self, name: Option<Seq<char>>, now: Timestamp) -> bool {
        &&& self.name_text() == name
        &&& self.title is None
        &&& self.description is None
        &&& self.cockpits@.len() == 0
        &&& self.handlers@.len() == 0
        &&& self.snapshooters@.len() == 0
        &&& self.last_activity_at == now
        &&& self.max_inactivity_duration is None
        &&& !self.is_disconnected
        &&& self.served@.len() == 0
    }

    /// `after` is `self` with `cockpit` behind the other cockpits.
    pub open spec fn cockpit_added(&self, cockpit: Cockpit<L>, after: &TelemetryProcessor<L>) -> bool {
        &&& *after == TelemetryProcessor { cockpits: after.cockpits, ..*self }
        &&& after.cockpits@ =~= self.cockpits@.push(cockpit)
    }

    /// `after` is `self` with `handler` behind the other handlers.
    pub open spec fn handler_added(&self, handler: BoxedHandler<L>, after: &TelemetryProcessor<L>) -> bool {
        &&& *after == TelemetryProcessor { handlers: after.handlers, ..*self }
        &&& after.handlers@ =~= self.handlers@.push(handler)
    }

    /// `after` is `self` with `snapshooter` behind the other contributors.
    pub open spec fn snapshooter_added(
        &self,
        snapshooter: BoxedSnapshooter,
        after: &TelemetryProcessor<L>,
    ) -> bool {
        &&& *after == TelemetryProcessor { snapshooters: after.snapshooters, ..*self }
        &&& after.snapshooters@ =~= self.snapshooters@.push(snapshooter)
    }

    /// `after` is `self` with `panel` added to the first cockpit that has
    /// the name `name`; it is `self` if no cockpit has that name.
    pub open spec fn panel_added_to(&self, name: Seq<char>, panel: Panel<L>, after: &TelemetryProcessor<L>) -> bool {
        if none_named(self.cockpits@, name) {
            *after == *self
        } else {
            let i = choose|i: int| is_first_named(self.cockpits@, name, i);
            &&& *after == TelemetryProcessor { cockpits: after.cockpits, ..*self }
            &&& after.cockpits@.len() == self.cockpits@.len()
            &&& forall|j: int|
                0 <= j < self.cockpits@.len() && j != i ==> after.cockpits@[j] == self.cockpits@[j]
            &&& self.cockpits@[i].panel_added(panel, &after.cockpits@[i])
        }
    }
}

impl<L: Eq + Send + 'static> TelemetryProcessor<L> {
    /// `after` is `self` with `observation` handed at `now` to every cockpit
    /// and then to every handler, first to last as the journal tells, and
    /// `n` is the sum of what they reported, as far as `usize` holds it.
    pub open spec fn dispatched(
        &self,
        observation: &Observation<L>,
        now: Timestamp,
        after: &TelemetryProcessor<L>,
        n: usize,
    ) -> bool {
        &&& *after == TelemetryProcessor {
            cockpits: after.cockpits,
            handlers: after.handlers,
            served: after.served,
            ..*self
        }
        &&& after.served@ =~= self.served@ + cockpits_in_order(self.cockpits.len() as int) + handlers_in_order(
            self.handlers.len() as int,
        )
        &&& after.cockpits.len() == self.cockpits.len()
        &&& forall|i: int|
            0 <= i < self.cockpits.len() ==> (#[trigger] self.cockpits@[i]).dispatched(
                observation,
                now,
                &after.cockpits@[i],
            )
        &&& all_took(handler_records(self.handlers@), handler_records(after.handlers@), *observation)
        &&& all_reported(self.handlers@, after.handlers@, *observation, now)
        &&& n == saturated(
            reported(cockpit_records(after.cockpits@)) + reported(handler_records(after.handlers@)),
        )
    }

    /// Whether `after` and `tally` are what dealing with `message` at `now`
    /// makes of `self`.
    ///
    /// An observation that the decider admits is handed to every cockpit
    /// and every handler and counts as processed; one that it turns away
    /// changes nothing and counts as dropped. The other messages change the
    /// tree, whatever the decider says, and count as processed; a panel for
    /// a cockpit that is not there is let go, and counts as processed too.
    pub open spec fn stepped(
        &self,
        message: TelemetryMessage<L>,
        decider: ProcessingDecider,
        now: Timestamp,
        after: &TelemetryProcessor<L>,
        tally: ProcessingOutcome,
    ) -> bool {
        match message {
            TelemetryMessage::Observation(observation) => {
                if decider.admits(observation.made_at()) {
                    &&& tally.processed == 1
                    &&& tally.dropped == 0
                    &&& self.dispatched(&observation, now, after, tally.instruments_updated)
                } else {
                    &&& tally == (ProcessingOutcome { processed: 0, dropped: 1, instruments_updated: 0 })
                    &&& *after == *self
                }
            },
            TelemetryMessage::AddCockpit(cockpit) => {
                &&& tally == (ProcessingOutcome { processed: 1, dropped: 0, instruments_updated: 0 })
                &&& self.cockpit_added(cockpit, after)
            },
            TelemetryMessage::AddHandler(handler) => {
                &&& tally == (ProcessingOutcome { processed: 1, dropped: 0, instruments_updated: 0 })
                &&& self.handler_added(handler, after)
            },
            TelemetryMessage::AddPanel { cockpit_name, panel } => {
                &&& tally == (ProcessingOutcome { processed: 1, dropped: 0, instruments_updated: 0 })
                &&& self.panel_added_to(cockpit_name@, panel, after)
            },
        }
    }

    /// Whether `after` and `tally` are what one answer of the queue makes
    /// of `self` at `now`.
    ///
    /// A message is dealt with. An empty queue changes nothing. A queue
    /// that nobody can send to any more marks the processor as
    /// disconnected and changes nothing else.
    pub open spec fn answered(
        &self,
        answer: Received<L>,
        decider: ProcessingDecider,
        now: Timestamp,
        after: &TelemetryProcessor<L>,
        tally: ProcessingOutcome,
    ) -> bool {
        match answer {
            Received::Message(message) => self.stepped(message, decider, now, after, tally),
            Received::Empty => tally == ProcessingOutcome::nothing() && *after == *self,
            Received::Disconnected => tally == ProcessingOutcome::nothing() && *after == (TelemetryProcessor {
                is_disconnected: true,
                ..*self
            }),
        }
    }

    /// Adds a cockpit behind the others.
    pub fn add_cockpit(&mut self, cockpit: Cockpit<L>)
        ensures
            old(self).cockpit_added(cockpit, final(self)),
    {
        self.cockpits.push(cockpit)
    }

    /// Adds `panel` to the first cockpit with the name `cockpit_name`, and
    /// lets it go if there is none.
    pub fn add_panel_to_cockpit(&mut self, cockpit_name: &String, panel: Panel<L>)
        ensures
            old(self).panel_added_to(cockpit_name@, panel, final(self)),
    {
        let mut i: usize = 0;
        while i < self.cockpits.len()
            invariant
                i <= self.cockpits.len(),
                *self == *old(self),
                forall|j: int| 0 <= j < i ==> (#[trigger] self.cockpits@[j]).name_text() != Some(cockpit_name@),
            decreases self.cockpits.len() - i,
        {
            let found = match &self.cockpits[i].name {
                Some(name) => *name == *cockpit_name,
                None => false,
            };
            if found {
                proof {
                    assert(is_first_named(old(self).cockpits@, cockpit_name@, i as int));
                    let k = choose|k: int| is_first_named(old(self).cockpits@, cockpit_name@, k);
                    assert(k == i);
                }
                self.cockpits[i].add_panel(panel);
                return ;
            }
            i = i + 1;
        }
    }

    /// Deals with one message that was taken from the queue at `now` and
    /// says what it came to.
    pub fn handle_message(
        &mut self,
        message: TelemetryMessage<L>,
        decider: &ProcessingDecider,
        now: Timestamp,
    ) -> (tally: ProcessingOutcome)
        ensures
            old(self).stepped(message, *decider, now, final(self), tally),
            tally.processed + tally.dropped == 1,
            old(self).same_wiring(final(self)),
    {
        match message {
            TelemetryMessage::Observation(obs) => {
                if decider.should_be_processed(&obs) {
                    let from_cockpits = dispatch_to_cockpits(&mut self.cockpits, &obs, now, &mut self.served);
                    let from_handlers = dispatch_to_handlers(&mut self.handlers, &obs, now, &mut self.served);
                    proof {
                        lemma_reported_nonnegative(cockpit_records(self.cockpits@));
                        lemma_reported_nonnegative(handler_records(self.handlers@));
                    }
                    ProcessingOutcome {
                        processed: 1,
                        dropped: 0,
                        instruments_updated: from_cockpits.saturating_add(from_handlers),
                    }
                } else {
                    ProcessingOutcome { processed: 0, dropped: 1, instruments_updated: 0 }
                }
            },
            TelemetryMessage::AddCockpit(c) => {
                self.add_cockpit(c);
                ProcessingOutcome { processed: 1, dropped: 0, instruments_updated: 0 }
            },
            TelemetryMessage::AddHandler(h) => {
                self.handlers.push(h);
                ProcessingOutcome { processed: 1, dropped: 0, instruments_updated: 0 }
            },
            TelemetryMessage::AddPanel { cockpit_name, panel } => {
                self.add_panel_to_cockpit(&cockpit_name, panel);
                ProcessingOutcome { processed: 1, dropped: 0, instruments_updated: 0 }
            },
        }
    }

    /// Deals with one answer of the queue: with the message, if there was
    /// one; with the news that nobody can send any more, if that is what
    /// the queue said. An empty queue changes nothing.
    pub fn handle_received(
        &mut self,
        received: Received<L>,
        decider: &ProcessingDecider,
        now: Timestamp,
    ) -> (tally: ProcessingOutcome)
        ensures
            old(self).answered(received, *decider, now, final(self), tally),
            tally.processed + tally.dropped <= 1,
            old(self).same_wiring(final(self)),
    {
        match received {
            Received::Message(message) => self.handle_message(message, decider, now),
            Received::Empty => ProcessingOutcome::default(),
            Received::Disconnected => {
                self.is_disconnected = true;
                ProcessingOutcome::default()
            },
        }
    }
}

/// The sending end of the queue. Whoever holds one can hand observations
/// and changes of the tree to the processor at the other end.
#[verifier::reject_recursive_types(L)]
pub struct TelemetryTransmitter<L> {
    pub sender: crossbeam_channel::Sender<TelemetryMessage<L>>,
}

impl<L> Clone for TelemetryTransmitter<L> {
    /// One more sending end of the same queue.
    fn clone(&self) -> (another: TelemetryTransmitter<L>) {
        TelemetryTransmitter { sender: another_sender(&self.sender) }
    }
}

impl<L: Eq + Send + 'static> TelemetryTransmitter<L> {
    /// Hands a message to the queue. Sending never waits. A message that
    /// the queue does not take is not lost: it comes back as it was given.
    pub fn transmit(&self, message: TelemetryMessage<L>) -> (sent: Result<(), Dropped<L>>)
        ensures
            sent matches Err(dropped) ==> dropped.message() == message,
    {
        send(&self.sender, message)
    }

    /// Sends an observation. If the queue does not take it, it comes back.
    pub fn observed(&self, observation: Observation<L>) -> (sent: Result<(), Dropped<L>>)
        ensures
            sent matches Err(dropped) ==> dropped.message() == TelemetryMessage::Observation(observation),
    {
        self.transmit(TelemetryMessage::Observation(observation))
    }

    /// Asks the processor to add a cockpit. If the queue does not take the
    /// request, the cockpit comes back.
    pub fn add_cockpit(&self, cockpit: Cockpit<L>) -> (sent: Result<(), Dropped<L>>)
        ensures
            sent matches Err(dropped) ==> dropped.message() == TelemetryMessage::AddCockpit(cockpit),
    {
        self.transmit(TelemetryMessage::AddCockpit(cockpit))
    }

    /// Asks the processor to add a handler. If the queue does not take the
    /// request, the handler comes back.
    pub fn add_handler(&self, handler: BoxedHandler<L>) -> (sent: Result<(), Dropped<L>>)
        ensures
            sent matches Err(dropped) ==> dropped.message() == TelemetryMessage::AddHandler(handler),
    {
        self.transmit(TelemetryMessage::AddHandler(handler))
    }

    /// Asks the processor to add a panel to the cockpit with the given
    /// name. If the queue does not take the request, name and panel come
    /// back.
    pub fn add_panel_to_cockpit(&self, cockpit_name: String, panel: Panel<L>) -> (sent: Result<(), Dropped<L>>)
        ensures
            sent matches Err(dropped) ==> dropped.message() == (TelemetryMessage::AddPanel {
                cockpit_name,
                panel,
            }),
    {
        self.transmit(TelemetryMessage::AddPanel { cockpit_name, panel })
    }
}

impl<L: Eq + Send + 'static> TelemetryProcessor<L> {
    /// A new queue: its sending end and a processor with a name at its
    /// receiving end.
    pub fn new_pair(name: String, now: Timestamp) -> (pair: (TelemetryTransmitter<L>, TelemetryProcessor<L>))
        ensures
            pair.1.is_fresh(Some(name@), now),
    {
        let (tx, rx) = open_channel();
        let transmitter = TelemetryTransmitter { sender: tx };
        let receiver = TelemetryProcessor {
            name: Some(name),
            title: None,
            description: None,
            cockpits: Vec::new(),
            handlers: Vec::new(),
            snapshooters: Vec::new(),
            receiver: rx,
            last_activity_at: now,
            max_inactivity_duration: None,
            is_disconnected: false,
            served: Ghost(Seq::empty()),
        };
        (transmitter, receiver)
    }

    /// A new queue: its sending end and a processor without a name at its
    /// receiving end.
    pub fn new_pair_without_name(now: Timestamp) -> (pair: (TelemetryTransmitter<L>, TelemetryProcessor<L>))
        ensures
            pair.1.is_fresh(None, now),
    {
        let (tx, rx) = open_channel();
        let transmitter = TelemetryTransmitter { sender: tx };
        let receiver = TelemetryProcessor {
            name: None,
            title: None,
            description: None,
            cockpits: Vec::new(),
            handlers: Vec::new(),
            snapshooters: Vec::new(),
            receiver: rx,
            last_activity_at: now,
            max_inactivity_duration: None,
            is_disconnected: false,
            served: Ghost(Seq::empty()),
        };
        (transmitter, receiver)
    }

    /// The processor with `cockpit` added.
    pub fn cockpit(self, cockpit: Cockpit<L>) -> (processor: TelemetryProcessor<L>)
        ensures
            self.cockpit_added(cockpit, &processor),
    {
        let mut processor = self;
        processor.add_cockpit(cockpit);
        processor
    }

    /// The cockpits of the processor.
    pub fn cockpits(&self) -> (cockpits: Vec<&Cockpit<L>>)
        ensures
            cockpits@.len() == self.cockpits@.len(),
            forall|i: int| 0 <= i < cockpits@.len() ==> *cockpits@[i] == self.cockpits@[i],
    {
        self.get_cockpits()
    }

    /// The cockpits of the processor.
    pub fn get_cockpits(&self) -> (cockpits: Vec<&Cockpit<L>>)
        ensures
            cockpits@.len() == self.cockpits@.len(),
            forall|i: int| 0 <= i < cockpits@.len() ==> *cockpits@[i] == self.cockpits@[i],
    {
        let mut cockpits: Vec<&Cockpit<L>> = Vec::new();
        let mut i: usize = 0;
        while i < self.cockpits.len()
            invariant
                i <= self.cockpits.len(),
                cockpits@.len() == i,
                forall|j: int| 0 <= j < i ==> *cockpits@[j] == self.cockpits@[j],
            decreases self.cockpits.len() - i,
        {
            cockpits.push(&self.cockpits[i]);
            i = i + 1;
        }
        cockpits
    }

    /// Adds a handler behind the others.
    pub fn add_handler(&mut self, handler: BoxedHandler<L>)
        ensures
            old(self).handler_added(handler, final(self)),
    {
        self.handlers.push(handler);
    }

    /// The processor with `handler` added.
    pub fn handler(self, handler: BoxedHandler<L>) -> (processor: TelemetryProcessor<L>)
        ensures
            self.handler_added(handler, &processor),
    {
        let mut processor = self;
        processor.add_handler(handler);
        processor
    }

    /// The handlers of the processor.
    pub fn handlers(&self) -> (handlers: &Vec<BoxedHandler<L>>)
        ensures
            *handlers == self.handlers,
    {
        self.get_handlers()
    }

    /// The handlers of the processor.
    pub fn get_handlers(&self) -> (handlers: &Vec<BoxedHandler<L>>)
        ensures
            *handlers == self.handlers,
    {
        &self.handlers
    }

    /// Adds a contributor that only writes into snapshots.
    pub fn add_snapshooter(&mut self, snapshooter: BoxedSnapshooter)
        ensures
            old(self).snapshooter_added(snapshooter, final(self)),
    {
        self.snapshooters.push(snapshooter);
    }

    /// The processor with `snapshooter` added.
    pub fn snapshooter(self, snapshooter: BoxedSnapshooter) -> (processor: TelemetryProcessor<L>)
        ensures
            self.snapshooter_added(snapshooter, &processor),
    {
        let mut processor = self;
        processor.add_snapshooter(snapshooter);
        processor
    }

    /// The contributors of the processor.
    pub fn snapshooters(&self) -> (snapshooters: &Vec<BoxedSnapshooter>)
        ensures
            *snapshooters == self.snapshooters,
    {
        self.get_snapshooters()
    }

    /// The contributors of the processor.
    pub fn get_snapshooters(&self) -> (snapshooters: &Vec<BoxedSnapshooter>)
        ensures
            *snapshooters == self.snapshooters,
    {
        &self.snapshooters
    }

    /// The name of the processor.
    pub fn name(&self) -> (name: Option<&str>)
        ensures
            text_of(name) == self.name_text(),
    {
        self.get_name()
    }

    /// The name of the processor.
    pub fn get_name(&self) -> (name: Option<&str>)
        ensures
            text_of(name) == self.name_text(),
    {
        match &self.name {
            Some(name) => Some(name.as_str()),
            None => None,
        }
    }

    /// Gives the processor a name. A processor with a name writes a nested
    /// snapshot under that name.
    pub fn set_name(&mut self, name: String)
        ensures
            *final(self) == (TelemetryProcessor { name: Some(name), ..*old(self) }),
    {
        self.name = Some(name)
    }

    /// Sets how long the processor may be idle before it stops showing what
    /// is below it.
    pub fn set_inactivity_limit(&mut self, limit: TimeSpan)
        ensures
            *final(self) == (TelemetryProcessor { max_inactivity_duration: Some(limit), ..*old(self) }),
    {
        self.max_inactivity_duration = Some(limit);
    }

    /// The processor with a limit on how long it may be idle.
    pub fn inactivity_limit(self, limit: TimeSpan) -> (processor: TelemetryProcessor<L>)
        ensures
            processor == (TelemetryProcessor { max_inactivity_duration: Some(limit), ..self }),
    {
        let mut processor = self;
        processor.set_inactivity_limit(limit);
        processor
    }
}

impl<L: Eq + Send + 'static> TelemetryProcessor<L> {
    /// `states` are the states that the processor goes through while the
    /// queue gives `answers` one after the other, and `tallies` is what
    /// each answer came to.
    pub open spec fn drained(
        &self,
        answers: Seq<Received<L>>,
        decider: ProcessingDecider,
        now: Timestamp,
        states: Seq<TelemetryProcessor<L>>,
        tallies: Seq<ProcessingOutcome>,
    ) -> bool {
        &&& states.len() == answers.len() + 1
        &&& tallies.len() == answers.len()
        &&& states[0] == *self
        &&& forall|i: int|
            0 <= i < answers.len() ==> (#[trigger] states[i]).answered(
                answers[i],
                decider,
                now,
                &states[i + 1],
                tallies[i],
            )
    }

    /// The queue was asked `max` times, or fewer times because its last
    /// answer was that nobody can send any more. No answer before the last
    /// one was that.
    pub open spec fn asked_until_done(answers: Seq<Received<L>>, max: usize) -> bool {
        &&& answers.len() <= max
        &&& forall|i: int| 0 <= i < answers.len() - 1 ==> !(#[trigger] answers[i] is Disconnected)
        &&& answers.len() < max ==> answers.len() > 0 && answers.last() is Disconnected
    }

    /// Whether `after` and `outcome` can be what a round that starts at
    /// `now` makes of a processor whose queue still has senders: the queue
    /// was asked until it had been asked `max` times or said that nobody
    /// can send any more; its answers were dealt with one after the other,
    /// all against the same deadline; `outcome` is their tallies taken
    /// together; the processor is marked as disconnected exactly if that
    /// was the last answer; and it notes `now` as the time of its last
    /// activity if anything was processed or dropped.
    pub open spec fn ran(
        &self,
        now: Timestamp,
        max: usize,
        strategy: ProcessingStrategy,
        after: &TelemetryProcessor<L>,
        outcome: ProcessingOutcome,
    ) -> bool {
        exists|
            answers: Seq<Received<L>>,
            states: Seq<TelemetryProcessor<L>>,
            tallies: Seq<ProcessingOutcome>,
        |
            {
                &&& #[trigger] self.drained(answers, strategy.decider_at(now), now, states, tallies)
                &&& Self::asked_until_done(answers, max)
                &&& outcome == total(tallies)
                &&& after.is_disconnected == (answers.len() > 0 && answers.last() is Disconnected)
                &&& *after == (TelemetryProcessor {
                    last_activity_at: if outcome.happened() {
                        now
                    } else {
                        self.last_activity_at
                    },
                    ..states.last()
                })
            }
    }

    /// Whether the processor has been idle at `now` for longer than its
    /// limit.
    pub open spec fn is_inactive_at(&self, now: Timestamp) -> bool {
        is_inactive(self.last_activity_at, self.max_inactivity_duration, now)
    }

    /// What the processor writes before its parts: title and description in
    /// a descriptive snapshot, then the liveness flags.
    pub open spec fn head(&self, now: Timestamp, descriptive: bool) -> Seq<(Seq<char>, ItemView)> {
        descriptives(self.title_text(), self.description_text(), descriptive) + liveness(
            self.last_activity_at,
            self.max_inactivity_duration,
            now,
        )
    }

    /// What the three groups of parts may write: the cockpits, the handlers
    /// and the contributors.
    pub open spec fn group_part(&self, now: Timestamp, descriptive: bool) -> spec_fn(
        int,
        Seq<(Seq<char>, ItemView)>,
    ) -> bool {
        |group: int, items: Seq<(Seq<char>, ItemView)>|
            if group == 0 {
                rendered_in_order(
                    self.cockpits.len() as int,
                    cockpit_part(self.cockpits@, now, descriptive),
                    items,
                )
            } else if group == 1 {
                rendered_in_order(
                    self.handlers.len() as int,
                    handler_part(self.handlers@, now, descriptive),
                    items,
                )
            } else {
                rendered_in_order(
                    self.snapshooters.len() as int,
                    snapshooter_part(self.snapshooters@, now, descriptive),
                    items,
                )
            }
    }

    /// Whether `items` is what the processor may write below its name at
    /// `now`. An inactive processor writes its head and nothing else.
    pub open spec fn renders_values(
        &self,
        now: Timestamp,
        descriptive: bool,
        items: Seq<(Seq<char>, ItemView)>,
    ) -> bool {
        let head = self.head(now, descriptive);
        if self.is_inactive_at(now) {
            items == head
        } else {
            &&& head.is_prefix_of(items)
            &&& rendered_in_order(3, self.group_part(now, descriptive), items.skip(head.len() as int))
        }
    }

    /// Writes what the processor shows below its name: the head and, unless
    /// the processor is inactive, what its parts write, group by group.
    pub fn put_values_into_snapshot(&self, into: &mut Snapshot, now: Timestamp, descriptive: bool)
        ensures
            old(into)@.is_prefix_of(final(into)@),
            self.renders_values(now, descriptive, final(into)@.skip(old(into)@.len() as int)),
    {
        let ghost first = into@.len() as int;
        let ghost part = self.group_part(now, descriptive);
        put_default_descriptives(self, into, descriptive);
        let inactive = put_liveness(into, self.last_activity_at, self.max_inactivity_duration, now);
        let ghost start = into@.len() as int;
        proof {
            assert(into@.skip(first) == self.head(now, descriptive));
            assert(old(into)@.is_prefix_of(into@));
        }
        if inactive {
            return ;
        }
        let ghost headed = into@;
        proof {
            lemma_none_rendered(part);
            assert(into@.skip(start) == Seq::<(Seq<char>, ItemView)>::empty());
        }
        let ghost before = into@;
        render_cockpits(&self.cockpits, into, now, descriptive);
        proof {
            assert(into@.skip(start).skip(before.skip(start).len() as int) == into@.skip(
                before.len() as int,
            ));
            lemma_prefix_of_prefix(old(into)@, before, into@);
            lemma_one_more_rendered(0, part, before.skip(start), into@.skip(start));
        }
        let ghost before = into@;
        render_handlers(&self.handlers, into, now, descriptive);
        proof {
            assert(into@.skip(start).skip(before.skip(start).len() as int) == into@.skip(
                before.len() as int,
            ));
            lemma_prefix_of_prefix(old(into)@, before, into@);
            lemma_one_more_rendered(1, part, before.skip(start), into@.skip(start));
        }
        let ghost before = into@;
        render_snapshooters(&self.snapshooters, into, now, descriptive);
        proof {
            assert(into@.skip(start).skip(before.skip(start).len() as int) == into@.skip(
                before.len() as int,
            ));
            lemma_prefix_of_prefix(old(into)@, before, into@);
            lemma_one_more_rendered(2, part, before.skip(start), into@.skip(start));
            let written = into@.skip(first);
            let head = self.head(now, descriptive);
            assert(headed.skip(first) == head);
            assert(head.is_prefix_of(written));
            assert(written.skip(head.len() as int) == into@.skip(start));
        }
    }
}

impl<L> Descriptive for TelemetryProcessor<L> {
    open spec fn title_text(&self) -> Option<Seq<char>> {
        match self.title {
            Some(title) => Some(title@),
            None => None,
        }
    }

    open spec fn description_text(&self) -> Option<Seq<char>> {
        match self.description {
            Some(description) => Some(description@),
            None => None,
        }
    }

    fn title(&self) -> (title: Option<&str>) {
        match &self.title {
            Some(title) => Some(title.as_str()),
            None => None,
        }
    }

    fn description(&self) -> (description: Option<&str>) {
        match &self.description {
            Some(description) => Some(description.as_str()),
            None => None,
        }
    }
}

impl<L: Eq + Send + 'static> PutsSnapshot for TelemetryProcessor<L> {
    /// A processor with a name writes one entry: a nested snapshot under
    /// the name. A processor without a name writes its values where it
    /// stands.
    open spec fn renders(&self, now: Timestamp, descriptive: bool, items: Seq<(Seq<char>, ItemView)>) -> bool {
        match self.name {
            Some(name) => {
                &&& items.len() == 1
                &&& items[0].0 == name@
                &&& items[0].1 matches ItemView::Snapshot(inner)
                &&& self.renders_values(now, descriptive, inner)
            },
            None => self.renders_values(now, descriptive, items),
        }
    }

    fn put_snapshot(&self, into: &mut Snapshot, now: Timestamp, descriptive: bool) {
        match &self.name {
            Some(name) => {
                let ghost before = into@;
                let mut new_level = Snapshot::new();
                self.put_values_into_snapshot(&mut new_level, now, descriptive);
                proof {
                    assert(new_level@.skip(0) == new_level@);
                }
                into.push(name.clone(), ItemKind::Snapshot(new_level));
                proof {
                    let written = into@.skip(before.len() as int);
                    assert(written.len() == 1);
                    assert(written[0] == into@[before.len() as int]);
                }
            },
            None => {
                self.put_values_into_snapshot(into, now, descriptive);
            },
        }
    }
}

impl<L: Eq + Send + 'static> ProcessesTelemetryMessages for TelemetryProcessor<L> {
    /// A round of a processor comes to no more observations and changes of
    /// the tree than it may ask the queue for, and to nothing once the
    /// queue has lost its senders.
    open spec fn comes_to(
        &self,
        now: Timestamp,
        max: usize,
        strategy: ProcessingStrategy,
        outcome: ProcessingOutcome,
    ) -> bool {
        &&& outcome.processed + outcome.dropped <= max
        &&& self.is_disconnected ==> outcome == ProcessingOutcome::nothing()
    }

    /// What it writes as a processor is what it writes as a contributor to
    /// snapshots.
    open spec fn renders(&self, now: Timestamp, descriptive: bool, items: Seq<(Seq<char>, ItemView)>) -> bool {
        PutsSnapshot::renders(self, now, descriptive, items)
    }

    /// Asks the queue at most `max` times and deals with each answer. A
    /// processor whose queue has lost its senders does nothing, now and
    /// ever after.
    fn process(&mut self, now: Timestamp, max: usize, strategy: ProcessingStrategy) -> (outcome:
        ProcessingOutcome)
        ensures
            old(self).is_disconnected ==> outcome == ProcessingOutcome::nothing() && *final(self) == *old(
                self,
            ),
            outcome.processed + outcome.dropped <= max,
            !old(self).is_disconnected ==> old(self).ran(now, max, strategy, final(self), outcome),
            final(self).name == old(self).name,
            final(self).title == old(self).title,
            final(self).description == old(self).description,
            final(self).receiver == old(self).receiver,
            final(self).snapshooters == old(self).snapshooters,
            final(self).max_inactivity_duration == old(self).max_inactivity_duration,
            final(self).cockpits.len() >= old(self).cockpits.len(),
            final(self).handlers.len() >= old(self).handlers.len(),
            final(self).last_activity_at == if outcome.happened() {
                now
            } else {
                old(self).last_activity_at
            },
    {
        if self.is_disconnected {
            return ProcessingOutcome::default();
        }
        let mut num_received: usize = 0;
        let mut outcome = ProcessingOutcome::default();
        let decider = strategy.decider(now);
        let ghost mut answers: Seq<Received<L>> = Seq::empty();
        let ghost mut states: Seq<TelemetryProcessor<L>> = seq![*self];
        let ghost mut tallies: Seq<ProcessingOutcome> = Seq::empty();
        while num_received < max && !self.is_disconnected
            invariant
                num_received <= max,
                decider == strategy.decider_at(now),
                answers.len() == num_received,
                outcome.processed + outcome.dropped <= num_received,
                outcome == total(tallies),
                old(self).drained(answers, decider, now, states, tallies),
                *self == states.last(),
                old(self).same_wiring(self),
                self.is_disconnected == (answers.len() > 0 && answers.last() is Disconnected),
                forall|i: int| 0 <= i < answers.len() - 1 ==> !(#[trigger] answers[i] is Disconnected),
            decreases max - num_received,
        {
            let ghost before = *self;
            let received = receive(&self.receiver);
            let ghost answer = received;
            let tally = self.handle_received(received, &decider, now);
            outcome.combine_with(&tally);
            proof {
                let longer = states.push(*self);
                assert forall|i: int| 0 <= i < answers.len() + 1 implies (#[trigger] longer[i]).answered(
                    answers.push(answer)[i],
                    decider,
                    now,
                    &longer[i + 1],
                    tallies.push(tally)[i],
                ) by {
                    if i < answers.len() {
                        assert(states[i].answered(answers[i], decider, now, &states[i + 1], tallies[i]));
                    } else {
                        assert(longer[i] == before);
                        assert(longer[i + 1] == *self);
                    }
                }
                assert(tallies.push(tally).drop_last() == tallies);
                answers = answers.push(answer);
                states = longer;
                tallies = tallies.push(tally);
            }
            num_received = num_received + 1;
        }
        if outcome.something_happened() {
            self.last_activity_at = now;
        }
        proof {
            assert(old(self).drained(answers, strategy.decider_at(now), now, states, tallies));
            assert(Self::asked_until_done(answers, max));
        }
        outcome
    }

    fn put_snapshot(&self, into: &mut Snapshot, now: Timestamp, descriptive: bool) {
        PutsSnapshot::put_snapshot(self, into, now, descriptive)
    }
}

/// With `DropOlderThan`, the age of an observation at the start of the round
/// decides what becomes of it: one that is as old as the limit or older is
/// dropped and changes nothing; a younger one is processed.
pub proof fn lemma_age_decides_the_tally<L: Eq + Send + 'static>(
    before: TelemetryProcessor<L>,
    observation: Observation<L>,
    max_age: TimeSpan,
    now: Timestamp,
    after: TelemetryProcessor<L>,
    tally: ProcessingOutcome,
)
    requires
        before.stepped(
            TelemetryMessage::Observation(observation),
            ProcessingStrategy::DropOlderThan(max_age).decider_at(now),
            now,
            &after,
            tally,
        ),
    ensures
        observation.made_at().nanos + max_age.nanos <= now.nanos ==> tally == (ProcessingOutcome {
            processed: 0,
            dropped: 1,
            instruments_updated: 0,
        }) && after == before,
        observation.made_at().nanos + max_age.nanos > now.nanos ==> tally.processed == 1 && tally.dropped
            == 0 && before.dispatched(&observation, now, &after, tally.instruments_updated),
{
}

/// How many of the answers are messages.
pub open spec fn messages_among<L>(answers: Seq<Received<L>>) -> int
    decreases answers.len(),
{
    if answers.len() == 0 {
        0
    } else {
        messages_among(answers.drop_last()) + if answers.last() is Message {
            1int
        } else {
            0int
        }
    }
}

/// A round comes to as many observations and changes of the tree, processed
/// or dropped, as there were messages among the answers of the queue: no
/// more than the times the queue was asked.
pub proof fn lemma_every_message_is_counted_once<L: Eq + Send + 'static>(
    before: TelemetryProcessor<L>,
    answers: Seq<Received<L>>,
    decider: ProcessingDecider,
    now: Timestamp,
    states: Seq<TelemetryProcessor<L>>,
    tallies: Seq<ProcessingOutcome>,
)
    requires
        before.drained(answers, decider, now, states, tallies),
        answers.len() <= usize::MAX,
    ensures
        total(tallies).processed + total(tallies).dropped == messages_among(answers),
        0 <= messages_among(answers) <= answers.len(),
    decreases answers.len(),
{
    if answers.len() > 0 {
        let n = answers.len() - 1;
        assert(before.drained(answers.drop_last(), decider, now, states.drop_last(), tallies.drop_last())) by {
            assert forall|i: int| 0 <= i < n implies (#[trigger] states.drop_last()[i]).answered(
                answers.drop_last()[i],
                decider,
                now,
                &states.drop_last()[i + 1],
                tallies.drop_last()[i],
            ) by {
                assert(states[i].answered(answers[i], decider, now, &states[i + 1], tallies[i]));
            }
        }
        lemma_every_message_is_counted_once(
            before,
            answers.drop_last(),
            decider,
            now,
            states.drop_last(),
            tallies.drop_last(),
        );
        assert(states[n].answered(answers[n], decider, now, &states[n + 1], tallies[n]));
    }
}

/// A queue that stays empty changes nothing: the round comes to nothing,
/// and the processor is as before, not marked as disconnected.
pub proof fn lemma_empty_queue_changes_nothing<L: Eq + Send + 'static>(
    before: TelemetryProcessor<L>,
    answers: Seq<Received<L>>,
    decider: ProcessingDecider,
    now: Timestamp,
    states: Seq<TelemetryProcessor<L>>,
    tallies: Seq<ProcessingOutcome>,
)
    requires
        before.drained(answers, decider, now, states, tallies),
        forall|i: int| 0 <= i < answers.len() ==> #[trigger] answers[i] is Empty,
    ensures
        total(tallies) == ProcessingOutcome::nothing(),
        states.last() == before,
    decreases answers.len(),
{
    if answers.len() > 0 {
        let n = answers.len() - 1;
        assert(before.drained(answers.drop_last(), decider, now, states.drop_last(), tallies.drop_last())) by {
            assert forall|i: int| 0 <= i < n implies (#[trigger] states.drop_last()[i]).answered(
                answers.drop_last()[i],
                decider,
                now,
                &states.drop_last()[i + 1],
                tallies.drop_last()[i],
            ) by {
                assert(states[i].answered(answers[i], decider, now, &states[i + 1], tallies[i]));
            }
        }
        assert forall|i: int| 0 <= i < n implies #[trigger] answers.drop_last()[i] is Empty by {
            assert(answers[i] is Empty);
        }
        lemma_empty_queue_changes_nothing(
            before,
            answers.drop_last(),
            decider,
            now,
            states.drop_last(),
            tallies.drop_last(),
        );
        assert(answers[n] is Empty);
        assert(states[n].answered(answers[n], decider, now, &states[n + 1], tallies[n]));
        assert(states.drop_last().last() == states[n]);
    }
}

/// A processor that has been idle for longer than its limit shows its
/// liveness flags, after title and description in a descriptive snapshot,
/// and nothing of what is below it.
pub proof fn lemma_inactive_processor_shows_only_flags<L: Eq + Send + 'static>(
    processor: TelemetryProcessor<L>,
    now: Timestamp,
    descriptive: bool,
    items: Seq<(Seq<char>, ItemView)>,
)
    requires
        processor.is_inactive_at(now),
        processor.renders_values(now, descriptive, items),
    ensures
        items == descriptives(processor.title_text(), processor.description_text(), descriptive)
            + seq![("_inactive"@, ItemView::Boolean(true)), ("_active"@, ItemView::Boolean(false))],
{
}

/// A processor whose last activity lies back no longer than its limit, or
/// that has no limit, shows itself as active and then what its parts write.
/// After a round at `now` in which something happened this holds until the
/// limit has passed.
pub proof fn lemma_active_processor_shows_flags_and_values<L: Eq + Send + 'static>(
    processor: TelemetryProcessor<L>,
    now: Timestamp,
    descriptive: bool,
    items: Seq<(Seq<char>, ItemView)>,
)
    requires
        processor.max_inactivity_duration matches Some(limit) ==> now.since(processor.last_activity_at)
            <= limit.nanos,
        processor.renders_values(now, descriptive, items),
    ensures
        !processor.is_inactive_at(now),
        processor.head(now, descriptive) == descriptives(
            processor.title_text(),
            processor.description_text(),
            descriptive,
        ) + seq![("_inactive"@, ItemView::Boolean(false)), ("_active"@, ItemView::Boolean(true))],
        processor.head(now, descriptive).is_prefix_of(items),
        rendered_in_order(
            3,
            processor.group_part(now, descriptive),
            items.skip(processor.head(now, descriptive).len() as int),
        ),
{
}

} // verus!

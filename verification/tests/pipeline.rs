use std::sync::atomic::{AtomicU64, Ordering};
use std::sync::Arc;

use metrix::instruments::{Instrument, InstrumentAdapter, LabelFilter, Panel, Update, Updates};
use metrix::processor::{
    AggregatesProcessors, BoxedProcessor, ProcessesTelemetryMessages, ProcessingDecider,
    ProcessingOutcome, ProcessingStrategy, ProcessorMount, TelemetryProcessor,
};
use metrix::channel::Received;
use metrix::{
    BoxedHandler, BoxedSnapshooter, Cockpit, Descriptive, Dropped, HandlesObservations, ItemKind,
    Observation, PutsSnapshot, Snapshot, TelemetryMessage, TelemetryTransmitter, TimeSpan,
    Timestamp,
};

#[derive(Clone, Copy, Debug, PartialEq, Eq)]
enum Label {
    A,
    B,
}

/// Counts occurrences; the count can be read from outside the tree.
struct SharedCounter {
    name: String,
    count: Arc<AtomicU64>,
}

impl SharedCounter {
    fn new(name: &str) -> (SharedCounter, Arc<AtomicU64>) {
        let count = Arc::new(AtomicU64::new(0));
        (SharedCounter { name: name.to_string(), count: count.clone() }, count)
    }
}

impl Updates for SharedCounter {
    fn update(&mut self, with: &Update) -> usize {
        match with {
            Update::Observations(n, _) => {
                self.count.fetch_add(*n, Ordering::SeqCst);
            }
            Update::Observation(_) => {
                self.count.fetch_add(1, Ordering::SeqCst);
            }
            Update::ObservationWithValue(_, _) => {
                self.count.fetch_add(1, Ordering::SeqCst);
            }
        }
        1
    }
}

impl PutsSnapshot for SharedCounter {
    fn put_snapshot(&self, into: &mut Snapshot, _now: Timestamp, _descriptive: bool) {
        into.push(self.name.clone(), ItemKind::UInt(self.count.load(Ordering::SeqCst)));
    }
}

impl Instrument for SharedCounter {}

/// Writes one fixed entry.
struct Fixed {
    name: String,
    value: i64,
}

impl PutsSnapshot for Fixed {
    fn put_snapshot(&self, into: &mut Snapshot, _now: Timestamp, _descriptive: bool) {
        into.push(self.name.clone(), ItemKind::Int(self.value));
    }
}

fn at(nanos: u64) -> Timestamp {
    Timestamp::from_nanos(nanos)
}

fn one(label: Label, nanos: u64) -> Observation<Label> {
    Observation::ObservedOne { label, timestamp: at(nanos) }
}

fn counting(name: &str) -> (BoxedHandler<Label>, Arc<AtomicU64>) {
    let (counter, count) = SharedCounter::new(name);
    (BoxedHandler::new(InstrumentAdapter::new(counter)), count)
}

fn outcome(processed: usize, dropped: usize, instruments_updated: usize) -> ProcessingOutcome {
    ProcessingOutcome { processed, dropped, instruments_updated }
}

fn flag(name: &str, value: bool) -> (String, ItemKind) {
    (name.to_string(), ItemKind::Boolean(value))
}

fn active() -> Vec<(String, ItemKind)> {
    vec![flag("_inactive", false), flag("_active", true)]
}

fn inactive() -> Vec<(String, ItemKind)> {
    vec![flag("_inactive", true), flag("_active", false)]
}

fn with(mut head: Vec<(String, ItemKind)>, mut rest: Vec<(String, ItemKind)>) -> Vec<(String, ItemKind)> {
    head.append(&mut rest);
    head
}

fn uint(name: &str, value: u64) -> (String, ItemKind) {
    (name.to_string(), ItemKind::UInt(value))
}

fn nested(name: &str, items: Vec<(String, ItemKind)>) -> (String, ItemKind) {
    (name.to_string(), ItemKind::Snapshot(Snapshot { items }))
}

fn delivered(answer: Result<(), Dropped<Label>>) {
    assert!(answer.is_ok());
}

fn pair() -> (TelemetryTransmitter<Label>, TelemetryProcessor<Label>) {
    TelemetryProcessor::new_pair_without_name(at(0))
}

fn rendered<P: ProcessesTelemetryMessages>(
    processor: &P,
    now: u64,
    descriptive: bool,
) -> Vec<(String, ItemKind)> {
    let mut snapshot = Snapshot::new();
    processor.put_snapshot(&mut snapshot, at(now), descriptive);
    snapshot.items
}

#[test]
fn three_for_a_and_one_for_b() {
    let (tx, mut processor) = TelemetryProcessor::<Label>::new_pair("proc".to_string(), at(0));
    let (counter, count) = counting("count");
    let mut panel = Panel::named(LabelFilter::new(Label::A), "a".to_string(), at(0));
    panel.add_counter(counter);
    let mut cockpit = Cockpit::new("cockpit".to_string());
    cockpit.add_panel(panel);
    processor.add_cockpit(cockpit);

    assert!(tx.observed(one(Label::A, 1)).is_ok());
    assert!(tx.observed(one(Label::A, 2)).is_ok());
    assert!(tx.observed(one(Label::A, 3)).is_ok());
    assert!(tx.observed(Observation::Observed { label: Label::B, count: 5, timestamp: at(4) }).is_ok());

    assert_eq!(processor.process(at(10), 10, ProcessingStrategy::ProcessAll), outcome(4, 0, 3));
    assert_eq!(count.load(Ordering::SeqCst), 3);
    assert_eq!(processor.last_activity_at, at(10));
    assert_eq!(
        rendered(&processor, 10, false),
        vec![nested(
            "proc",
            with(
                active(),
                vec![nested("cockpit", vec![nested("a", with(active(), vec![uint("count", 3)]))])]
            )
        )]
    );
}

#[test]
fn a_fresh_processor_is_empty() {
    let (_tx, processor) = TelemetryProcessor::<Label>::new_pair("p".to_string(), at(7));
    assert_eq!(processor.get_name(), Some("p"));
    assert_eq!(processor.name(), Some("p"));
    assert_eq!(processor.title(), None);
    assert_eq!(processor.description(), None);
    assert!(processor.get_cockpits().is_empty());
    assert!(processor.cockpits().is_empty());
    assert!(processor.get_handlers().is_empty());
    assert!(processor.handlers().is_empty());
    assert!(processor.get_snapshooters().is_empty());
    assert!(processor.snapshooters().is_empty());
    assert_eq!(processor.last_activity_at, at(7));
    assert_eq!(processor.max_inactivity_duration, None);
    assert!(!processor.is_disconnected);
    let (_tx, unnamed) = pair();
    assert_eq!(unnamed.get_name(), None);
}

#[test]
fn an_empty_queue_gives_an_empty_outcome() {
    let (_tx, mut processor) = pair();
    assert_eq!(processor.process(at(5), 10, ProcessingStrategy::ProcessAll), outcome(0, 0, 0));
    assert_eq!(processor.last_activity_at, at(0));
    assert!(!processor.is_disconnected);
}

#[test]
fn old_observations_are_dropped_and_young_ones_admitted() {
    let (tx, mut processor) = pair();
    let (counter, count) = counting("count");
    processor.add_handler(counter);
    let now = 1_000u64;
    let d = 100u64;
    delivered(tx.observed(one(Label::A, now - d - 1)));
    delivered(tx.observed(one(Label::A, now - d)));
    delivered(tx.observed(one(Label::A, now - d + 1)));
    assert_eq!(
        processor.process(at(now), 10, ProcessingStrategy::DropOlderThan(TimeSpan::from_nanos(d))),
        outcome(1, 2, 1)
    );
    assert_eq!(count.load(Ordering::SeqCst), 1);
    assert_eq!(processor.last_activity_at, at(now));
}

#[test]
fn a_limit_longer_than_the_time_so_far_admits_everything() {
    let (tx, mut processor) = pair();
    delivered(tx.observed(one(Label::A, 0)));
    delivered(tx.observed(one(Label::A, 3)));
    assert_eq!(
        processor.process(at(5), 10, ProcessingStrategy::DropOlderThan(TimeSpan::from_nanos(6))),
        outcome(2, 0, 0)
    );
    delivered(tx.observed(one(Label::A, 0)));
    delivered(tx.observed(one(Label::A, 1)));
    assert_eq!(
        processor.process(at(5), 10, ProcessingStrategy::DropOlderThan(TimeSpan::from_nanos(5))),
        outcome(1, 1, 0)
    );
}

#[test]
fn the_decider_fixes_the_deadline() {
    assert_eq!(ProcessingStrategy::ProcessAll.decider(at(9)), ProcessingDecider::ProcessAll);
    assert_eq!(ProcessingStrategy::DropAll.decider(at(9)), ProcessingDecider::DropAll);
    assert_eq!(
        ProcessingStrategy::DropOlderThan(TimeSpan::from_nanos(4)).decider(at(9)),
        ProcessingDecider::DropBeforeDeadline(at(5))
    );
    assert_eq!(
        ProcessingStrategy::DropOlderThan(TimeSpan::from_nanos(9)).decider(at(9)),
        ProcessingDecider::DropBeforeDeadline(at(0))
    );
    assert_eq!(
        ProcessingStrategy::DropOlderThan(TimeSpan::from_nanos(10)).decider(at(9)),
        ProcessingDecider::ProcessAll
    );
    let decider = ProcessingDecider::DropBeforeDeadline(at(5));
    assert!(!decider.should_be_processed(&one(Label::A, 4)));
    assert!(!decider.should_be_processed(&one(Label::A, 5)));
    assert!(decider.should_be_processed(&one(Label::A, 6)));
    assert!(ProcessingDecider::ProcessAll.should_be_processed(&one(Label::A, 0)));
    assert!(!ProcessingDecider::DropAll.should_be_processed(&one(Label::A, u64::MAX)));
}

#[test]
fn the_default_strategy_drops_what_is_older_than_a_minute() {
    assert_eq!(
        ProcessingStrategy::default(),
        ProcessingStrategy::DropOlderThan(TimeSpan::from_secs(60))
    );
}

#[test]
fn drop_all_drops_observations_but_not_changes_of_the_tree() {
    let (tx, mut processor) = pair();
    let (counter, count) = counting("count");
    delivered(tx.observed(one(Label::A, 1)));
    delivered(tx.add_cockpit(Cockpit::new("c".to_string())));
    delivered(tx.add_handler(counter));
    delivered(tx.add_panel_to_cockpit("c".to_string(), Panel::accept_all(at(0))));
    delivered(tx.observed(one(Label::A, 2)));
    assert_eq!(processor.process(at(5), 10, ProcessingStrategy::DropAll), outcome(3, 2, 0));
    assert_eq!(processor.get_cockpits().len(), 1);
    assert_eq!(processor.get_cockpits()[0].panels.len(), 1);
    assert_eq!(processor.get_handlers().len(), 1);
    assert_eq!(count.load(Ordering::SeqCst), 0);
}

#[test]
fn no_more_than_max_messages_are_taken() {
    let (tx, mut processor) = pair();
    for i in 0..10 {
        delivered(tx.observed(one(Label::A, i)));
    }
    assert_eq!(processor.process(at(20), 0, ProcessingStrategy::ProcessAll), outcome(0, 0, 0));
    assert_eq!(processor.process(at(20), 3, ProcessingStrategy::ProcessAll), outcome(3, 0, 0));
    assert_eq!(processor.process(at(20), 4, ProcessingStrategy::DropAll), outcome(0, 4, 0));
    assert_eq!(processor.process(at(20), 100, ProcessingStrategy::ProcessAll), outcome(3, 0, 0));
    assert_eq!(processor.process(at(20), 100, ProcessingStrategy::ProcessAll), outcome(0, 0, 0));
}

#[test]
fn messages_are_dealt_with_in_the_order_of_sending() {
    let (tx, mut processor) = pair();
    let (counter, count) = counting("count");
    delivered(tx.observed(one(Label::A, 1)));
    delivered(tx.add_handler(counter));
    delivered(tx.observed(one(Label::A, 2)));
    assert_eq!(processor.process(at(5), 10, ProcessingStrategy::ProcessAll), outcome(3, 0, 1));
    assert_eq!(count.load(Ordering::SeqCst), 1);
}

#[test]
fn a_panel_goes_to_the_first_cockpit_of_that_name() {
    let (tx, mut processor) = pair();
    processor.add_cockpit(Cockpit::without_name());
    processor.add_cockpit(Cockpit::new("x".to_string()));
    processor.add_cockpit(Cockpit::new("y".to_string()));
    processor.add_cockpit(Cockpit::new("y".to_string()));
    delivered(tx.add_panel_to_cockpit("y".to_string(), Panel::accept_all(at(0))));
    assert_eq!(processor.process(at(5), 10, ProcessingStrategy::ProcessAll), outcome(1, 0, 0));
    let panels: Vec<usize> = processor.get_cockpits().iter().map(|c| c.panels.len()).collect();
    assert_eq!(panels, vec![0, 0, 1, 0]);
}

#[test]
fn a_panel_for_a_cockpit_that_is_not_there_is_let_go() {
    let (tx, mut processor) = pair();
    processor.add_cockpit(Cockpit::new("x".to_string()));
    delivered(tx.add_panel_to_cockpit("nowhere".to_string(), Panel::accept_all(at(0))));
    assert_eq!(processor.process(at(5), 10, ProcessingStrategy::ProcessAll), outcome(1, 0, 0));
    assert_eq!(processor.get_cockpits()[0].panels.len(), 0);
    assert_eq!(processor.last_activity_at, at(5));
}

#[test]
fn a_message_can_be_handled_without_a_queue() {
    let (_tx, mut processor) = pair();
    let (counter, count) = counting("count");
    let decider = ProcessingDecider::DropBeforeDeadline(at(10));
    assert_eq!(
        processor.handle_message(TelemetryMessage::AddHandler(counter), &decider, at(20)),
        outcome(1, 0, 0)
    );
    assert_eq!(
        processor.handle_message(TelemetryMessage::Observation(one(Label::A, 10)), &decider, at(20)),
        outcome(0, 1, 0)
    );
    assert_eq!(
        processor.handle_message(TelemetryMessage::Observation(one(Label::A, 11)), &decider, at(20)),
        outcome(1, 0, 1)
    );
    assert_eq!(
        processor
            .handle_message(
                TelemetryMessage::AddCockpit(Cockpit::new("c".to_string())),
                &decider,
                at(20)
            ),
        outcome(1, 0, 0)
    );
    assert_eq!(
        processor.handle_message(
            TelemetryMessage::AddPanel {
                cockpit_name: "c".to_string(),
                panel: Panel::accept_all(at(0)),
            },
            &decider,
            at(20)
        ),
        outcome(1, 0, 0)
    );
    assert_eq!(count.load(Ordering::SeqCst), 1);
    assert_eq!(processor.get_cockpits()[0].panels.len(), 1);
    assert_eq!(processor.last_activity_at, at(0));
}

#[test]
fn a_processor_without_senders_does_nothing_for_ever() {
    let (tx, mut processor) = pair();
    delivered(tx.observed(one(Label::A, 1)));
    drop(tx);
    // The waiting message is still delivered; then the queue reports the loss.
    assert_eq!(processor.process(at(5), 10, ProcessingStrategy::ProcessAll), outcome(1, 0, 0));
    assert!(processor.is_disconnected);
    assert_eq!(processor.last_activity_at, at(5));
    for round in 0..5u64 {
        assert_eq!(
            processor.process(at(10 + round), 10, ProcessingStrategy::ProcessAll),
            outcome(0, 0, 0)
        );
        assert!(processor.is_disconnected);
        assert_eq!(processor.last_activity_at, at(5));
    }
}

#[test]
fn a_sender_without_a_processor_gets_its_message_back() {
    let (tx, processor) = pair();
    let other = tx.clone();
    assert!(tx.observed(one(Label::A, 1)).is_ok());
    drop(processor);

    match tx.observed(one(Label::A, 2)) {
        Err(Dropped::Disconnected(TelemetryMessage::Observation(observation))) => {
            assert_eq!(observation, one(Label::A, 2))
        }
        _ => panic!("the observation comes back"),
    }
    match other.transmit(TelemetryMessage::Observation(one(Label::B, 3))) {
        Err(dropped) => match dropped.into_message() {
            TelemetryMessage::Observation(observation) => assert_eq!(observation, one(Label::B, 3)),
            _ => panic!("the observation comes back"),
        },
        Ok(()) => panic!("nobody is left who could receive"),
    }
    match tx.add_cockpit(Cockpit::new("c".to_string())) {
        Err(Dropped::Disconnected(TelemetryMessage::AddCockpit(cockpit))) => {
            assert_eq!(cockpit.get_name(), Some("c"))
        }
        _ => panic!("the cockpit comes back"),
    }
    let (counter, count) = counting("count");
    match tx.add_handler(counter) {
        Err(Dropped::Disconnected(TelemetryMessage::AddHandler(mut handler))) => {
            assert_eq!(handler.handle_observation(&one(Label::A, 4), at(4)), 1);
            assert_eq!(count.load(Ordering::SeqCst), 1);
        }
        _ => panic!("the handler comes back"),
    }
    match tx.add_panel_to_cockpit("c".to_string(), Panel::accept_all_named("p".to_string(), at(0))) {
        Err(Dropped::Disconnected(TelemetryMessage::AddPanel { cockpit_name, panel })) => {
            assert_eq!(cockpit_name, "c");
            assert_eq!(panel.name(), Some("p"));
        }
        _ => panic!("name and panel come back"),
    }
}

#[test]
fn every_sender_reaches_the_processor() {
    let (tx, mut processor) = pair();
    let other = tx.clone();
    delivered(tx.observed(one(Label::A, 1)));
    delivered(other.observed(one(Label::B, 2)));
    drop(tx);
    assert_eq!(processor.process(at(5), 10, ProcessingStrategy::ProcessAll), outcome(2, 0, 0));
    assert!(!processor.is_disconnected);
}

#[test]
fn the_builders_of_a_processor_add_in_order() {
    let (_tx, processor) = pair();
    let processor = processor
        .cockpit(Cockpit::new("c".to_string()))
        .handler(counting("h").0)
        .snapshooter(BoxedSnapshooter::new(Fixed { name: "s".to_string(), value: 3 }))
        .inactivity_limit(TimeSpan::from_nanos(10));
    assert_eq!(processor.max_inactivity_duration, Some(TimeSpan::from_nanos(10)));
    assert_eq!(
        rendered(&processor, 5, false),
        vec![
            flag("_inactive", false),
            flag("_active", true),
            nested("c", vec![]),
            uint("h", 0),
            ("s".to_string(), ItemKind::Int(3)),
        ]
    );
}

#[test]
fn an_inactive_processor_writes_only_its_flags_until_it_is_active_again() {
    let (tx, mut processor) = pair();
    let (counter, _) = counting("count");
    processor.add_handler(counter);
    processor.add_snapshooter(BoxedSnapshooter::new(Fixed { name: "s".to_string(), value: 3 }));
    processor.set_name("p".to_string());
    processor.set_inactivity_limit(TimeSpan::from_nanos(10));

    assert_eq!(
        rendered(&processor, 11, false),
        vec![nested("p", vec![flag("_inactive", true), flag("_active", false)])]
    );
    // A round in which nothing happens does not count as activity.
    assert_eq!(processor.process(at(11), 10, ProcessingStrategy::ProcessAll), outcome(0, 0, 0));
    assert_eq!(
        rendered(&processor, 11, false),
        vec![nested("p", vec![flag("_inactive", true), flag("_active", false)])]
    );
    // A dropped observation does.
    delivered(tx.observed(one(Label::A, 1)));
    assert_eq!(processor.process(at(12), 10, ProcessingStrategy::DropAll), outcome(0, 1, 0));
    assert_eq!(
        rendered(&processor, 22, false),
        vec![nested(
            "p",
            vec![
                flag("_inactive", false),
                flag("_active", true),
                uint("count", 0),
                ("s".to_string(), ItemKind::Int(3)),
            ]
        )]
    );
    assert_eq!(
        rendered(&processor, 23, false),
        vec![nested("p", vec![flag("_inactive", true), flag("_active", false)])]
    );
}

#[test]
fn a_cockpit_hands_every_observation_to_every_panel() {
    let (for_a, a_count) = counting("a");
    let (for_b, b_count) = counting("b");
    let mut cockpit = Cockpit::new("c".to_string())
        .panel(Panel::new(LabelFilter::new(Label::A), at(0)).counter(for_a))
        .panel(Panel::new(LabelFilter::new(Label::B), at(0)).counter(for_b));
    cockpit.set_title("T".to_string());
    cockpit.set_description("D".to_string());
    assert_eq!(cockpit.get_name(), Some("c"));
    assert_eq!(cockpit.title(), Some("T"));
    assert_eq!(cockpit.description(), Some("D"));
    assert_eq!(cockpit.handle_observation(&one(Label::A, 1), at(9)), 1);
    assert_eq!(cockpit.handle_observation(&one(Label::A, 2), at(9)), 1);
    assert_eq!(cockpit.handle_observation(&one(Label::B, 3), at(9)), 1);
    assert_eq!(a_count.load(Ordering::SeqCst), 2);
    assert_eq!(b_count.load(Ordering::SeqCst), 1);
    let mut snapshot = Snapshot::new();
    cockpit.put_snapshot(&mut snapshot, at(0), true);
    assert_eq!(
        snapshot.items,
        vec![nested(
            "c",
            vec![
                ("_title".to_string(), ItemKind::Text("T".to_string())),
                ("_description".to_string(), ItemKind::Text("D".to_string())),
                flag("_inactive", false),
                flag("_active", true),
                uint("a", 2),
                flag("_inactive", false),
                flag("_active", true),
                uint("b", 1),
            ]
        )]
    );
    let mut unnamed = Snapshot::new();
    Cockpit::<Label>::without_name().put_snapshot(&mut unnamed, at(0), true);
    assert_eq!(unnamed.items, vec![]);
}

#[test]
fn a_mount_asks_each_processor_with_the_same_limit() {
    let (tx1, first) = TelemetryProcessor::<Label>::new_pair("first".to_string(), at(0));
    let (tx2, second) = TelemetryProcessor::<Label>::new_pair("second".to_string(), at(0));
    let (counter, count) = counting("count");
    let second = second.handler(counter);
    for i in 0..5 {
        delivered(tx1.observed(one(Label::A, i)));
        delivered(tx2.observed(one(Label::B, i)));
    }
    let mut mount = ProcessorMount::new("mount".to_string(), at(0));
    assert_eq!(mount.name(), Some("mount"));
    mount.add_processor(BoxedProcessor::new(first));
    mount.add_processor(BoxedProcessor::new(second));
    mount.add_snapshooter(BoxedSnapshooter::new(Fixed { name: "s".to_string(), value: 9 }));
    assert_eq!(mount.processors().len(), 2);
    assert_eq!(mount.snapshooters().len(), 1);

    assert_eq!(mount.process(at(10), 3, ProcessingStrategy::ProcessAll), outcome(6, 0, 3));
    assert_eq!(mount.last_activity_at, at(10));
    assert_eq!(
        mount.process(at(11), 3, ProcessingStrategy::DropOlderThan(TimeSpan::from_nanos(7))),
        outcome(0, 4, 0)
    );
    assert_eq!(mount.process(at(12), 3, ProcessingStrategy::ProcessAll), outcome(0, 0, 0));
    assert_eq!(mount.last_activity_at, at(11));
    assert_eq!(count.load(Ordering::SeqCst), 3);
    assert_eq!(
        rendered(&mount, 12, false),
        vec![nested(
            "mount",
            vec![
                flag("_inactive", false),
                flag("_active", true),
                nested("first", active()),
                nested("second", with(active(), vec![uint("count", 3)])),
                ("s".to_string(), ItemKind::Int(9)),
            ]
        )]
    );
}

#[test]
fn a_mount_can_hold_a_mount() {
    let (tx, processor) = TelemetryProcessor::<Label>::new_pair_without_name(at(0));
    delivered(tx.observed(one(Label::A, 1)));
    let mut inner = ProcessorMount::without_name(at(0));
    assert_eq!(inner.name(), None);
    inner.add_processor(BoxedProcessor::new(processor));
    let mut outer = ProcessorMount::new("outer".to_string(), at(0));
    outer.add_processor(BoxedProcessor::new(inner));
    assert_eq!(outer.process(at(3), 10, ProcessingStrategy::ProcessAll), outcome(1, 0, 0));
    assert_eq!(outer.process(at(4), 10, ProcessingStrategy::ProcessAll), outcome(0, 0, 0));
    assert_eq!(outer.last_activity_at, at(3));
}

#[test]
fn an_inactive_mount_writes_only_its_flags() {
    let (tx, processor) = TelemetryProcessor::<Label>::new_pair("p".to_string(), at(0));
    let mut mount = ProcessorMount::without_name(at(0));
    mount.add_processor(BoxedProcessor::new(processor));
    mount.set_inactivity_limit(TimeSpan::from_nanos(5));
    mount.set_name("m".to_string());
    assert_eq!(mount.title(), None);
    assert_eq!(mount.description(), None);
    assert_eq!(
        rendered(&mount, 5, false),
        vec![nested("m", with(active(), vec![nested("p", active())]))]
    );
    assert_eq!(
        rendered(&mount, 6, false),
        vec![nested("m", vec![flag("_inactive", true), flag("_active", false)])]
    );
    delivered(tx.observed(one(Label::A, 1)));
    assert_eq!(mount.process(at(6), 1, ProcessingStrategy::ProcessAll), outcome(1, 0, 0));
    assert_eq!(
        rendered(&mount, 6, false),
        vec![nested("m", with(active(), vec![nested("p", active())]))]
    );
}

#[test]
fn outcomes_add_up() {
    let mut sum = ProcessingOutcome::default();
    assert_eq!(sum, outcome(0, 0, 0));
    assert!(!sum.something_happened());
    sum.combine_with(&outcome(1, 2, 3));
    sum.combine_with(&outcome(10, 20, 30));
    assert_eq!(sum, outcome(11, 22, 33));
    assert!(sum.something_happened());
    assert!(outcome(1, 0, 0).something_happened());
    assert!(outcome(0, 1, 0).something_happened());
    assert!(!outcome(0, 0, 5).something_happened());
    sum.combine_with(&outcome(usize::MAX, 0, usize::MAX - 33));
    assert_eq!(sum, outcome(usize::MAX, 22, usize::MAX));
}

#[test]
fn an_empty_queue_and_a_lost_queue_are_told_apart() {
    let (_tx, mut processor) = pair();
    let (counter, count) = counting("count");
    processor.add_handler(counter);
    let decider = ProcessingDecider::ProcessAll;
    assert_eq!(processor.handle_received(Received::Empty, &decider, at(5)), outcome(0, 0, 0));
    assert!(!processor.is_disconnected);
    assert_eq!(
        processor.handle_received(
            Received::Message(TelemetryMessage::Observation(one(Label::A, 1))),
            &decider,
            at(5)
        ),
        outcome(1, 0, 1)
    );
    assert!(!processor.is_disconnected);
    assert_eq!(processor.handle_received(Received::Disconnected, &decider, at(5)), outcome(0, 0, 0));
    assert!(processor.is_disconnected);
    assert_eq!(processor.get_handlers().len(), 1);
    assert_eq!(processor.last_activity_at, at(0));
    assert_eq!(count.load(Ordering::SeqCst), 1);
}

#[test]
fn an_empty_queue_leaves_the_processor_connected() {
    let (tx, mut processor) = pair();
    for round in 0..3u64 {
        assert_eq!(
            processor.process(at(round), 5, ProcessingStrategy::ProcessAll),
            outcome(0, 0, 0)
        );
        assert!(!processor.is_disconnected);
        assert_eq!(processor.last_activity_at, at(0));
    }
    delivered(tx.observed(one(Label::A, 1)));
    assert_eq!(processor.process(at(9), 5, ProcessingStrategy::ProcessAll), outcome(1, 0, 0));
    assert!(!processor.is_disconnected);
}

#[test]
fn a_round_refreshes_the_panels_that_took_part() {
    let (tx, mut processor) = pair();
    let (counter, _) = counting("count");
    let panel = Panel::named(LabelFilter::new(Label::A), "a".to_string(), at(0))
        .counter(counter)
        .inactivity_limit(TimeSpan::from_nanos(10));
    processor.add_cockpit(Cockpit::new("c".to_string()).panel(panel));
    assert_eq!(
        rendered(&processor, 50, false),
        with(active(), vec![nested("c", vec![nested("a", inactive())])])
    );
    delivered(tx.observed(one(Label::B, 49)));
    assert_eq!(processor.process(at(50), 5, ProcessingStrategy::ProcessAll), outcome(1, 0, 0));
    assert_eq!(
        rendered(&processor, 50, false),
        with(active(), vec![nested("c", vec![nested("a", inactive())])])
    );
    delivered(tx.observed(one(Label::A, 49)));
    assert_eq!(processor.process(at(50), 5, ProcessingStrategy::ProcessAll), outcome(1, 0, 1));
    assert_eq!(
        rendered(&processor, 60, false),
        with(active(), vec![nested("c", vec![nested("a", with(active(), vec![uint("count", 1)]))])])
    );
}

#[test]
fn processors_and_mounts_can_contribute_to_snapshots() {
    let (_tx, processor) = TelemetryProcessor::<Label>::new_pair("p".to_string(), at(0));
    let mut mount = ProcessorMount::new("m".to_string(), at(0));
    mount.add_snapshooter(BoxedSnapshooter::new(Fixed { name: "s".to_string(), value: 1 }));
    let mut panel: Panel<Label> = Panel::accept_all(at(0));
    panel.add_snapshooter(BoxedSnapshooter::new(processor));
    panel.add_snapshooter(BoxedSnapshooter::new(mount));
    let mut snapshot = Snapshot::new();
    PutsSnapshot::put_snapshot(&panel, &mut snapshot, at(0), false);
    assert_eq!(
        snapshot.items,
        with(
            active(),
            vec![
                nested("p", active()),
                nested("m", with(active(), vec![("s".to_string(), ItemKind::Int(1))])),
            ]
        )
    );
}

use std::sync::atomic::{AtomicU64, Ordering};
use std::sync::{Arc, Mutex};

use metrix::instruments::{Instrument, InstrumentAdapter, LabelFilter, Panel, Update, Updates};
use metrix::{
    BoxedHandler, BoxedSnapshooter, Descriptive, HandlesObservations, ItemKind, Observation,
    ObservedValue, PutsSnapshot, Snapshot, TimeSpan, Timestamp,
};

/// Counts the updates it is given and reports a fixed number for each.
struct Probe {
    name: String,
    updates: Arc<AtomicU64>,
    reports: usize,
}

fn probe(name: &str, reports: usize) -> (Probe, Arc<AtomicU64>) {
    let updates = Arc::new(AtomicU64::new(0));
    (Probe { name: name.to_string(), updates: updates.clone(), reports }, updates)
}

impl Updates for Probe {
    fn update(&mut self, _with: &Update) -> usize {
        self.updates.fetch_add(1, Ordering::SeqCst);
        self.reports
    }
}

impl PutsSnapshot for Probe {
    fn put_snapshot(&self, into: &mut Snapshot, _now: Timestamp, _descriptive: bool) {
        into.push(self.name.clone(), ItemKind::UInt(self.updates.load(Ordering::SeqCst)));
    }
}

impl Instrument for Probe {}

/// Writes one fixed entry.
struct Fixed {
    name: String,
    value: i64,
}

impl PutsSnapshot for Fixed {
    fn put_snapshot(&self, into: &mut Snapshot, _now: Timestamp, _descriptive: bool) {
        into.push(self.name.clone(), ItemKind::Int(self.value));
    }
}

fn at(nanos: u64) -> Timestamp {
    Timestamp::from_nanos(nanos)
}

fn one(label: u8) -> Observation<u8> {
    Observation::ObservedOne { label, timestamp: at(1) }
}

fn boxed(probe: Probe) -> BoxedHandler<u8> {
    BoxedHandler::new(InstrumentAdapter::new(probe))
}

fn flag(name: &str, value: bool) -> (String, ItemKind) {
    (name.to_string(), ItemKind::Boolean(value))
}

fn active() -> Vec<(String, ItemKind)> {
    vec![flag("_inactive", false), flag("_active", true)]
}

fn inactive() -> Vec<(String, ItemKind)> {
    vec![flag("_inactive", true), flag("_active", false)]
}

fn with(mut head: Vec<(String, ItemKind)>, mut rest: Vec<(String, ItemKind)>) -> Vec<(String, ItemKind)> {
    head.append(&mut rest);
    head
}

fn uint(name: &str, value: u64) -> (String, ItemKind) {
    (name.to_string(), ItemKind::UInt(value))
}

fn rendered(panel: &Panel<u8>, now: u64, descriptive: bool) -> Vec<(String, ItemKind)> {
    let mut snapshot = Snapshot::new();
    panel.put_snapshot(&mut snapshot, at(now), descriptive);
    snapshot.items
}

#[test]
fn a_fresh_panel_is_empty() {
    let panel: Panel<u8> = Panel::new(LabelFilter::new(1), at(5));
    assert_eq!(panel.name(), None);
    assert_eq!(panel.title(), None);
    assert_eq!(panel.description(), None);
    assert!(panel.counter.is_none());
    assert!(panel.gauge.is_none());
    assert!(panel.meter.is_none());
    assert!(panel.histogram.is_none());
    assert!(panel.panels.is_empty());
    assert!(panel.handlers.is_empty());
    assert!(panel.snapshooters.is_empty());
    assert_eq!(panel.last_update, at(5));
    assert_eq!(panel.max_inactivity_duration, None);
    assert!(panel.accepts_label(&1));
    assert!(!panel.accepts_label(&2));
}

#[test]
fn the_constructors_agree() {
    let named: Panel<u8> = Panel::named(LabelFilter::new(1), "n".to_string(), at(0));
    assert_eq!(named.name(), Some("n"));
    let with_name: Panel<u8> = Panel::with_name(1, "n".to_string(), at(0));
    assert_eq!(with_name.name(), Some("n"));
    assert!(with_name.accepts_label(&1));
    assert!(!with_name.accepts_label(&2));
    let accept: Panel<u8> = Panel::accept(LabelFilter::many(vec![1, 2]), at(0));
    assert_eq!(accept.name(), None);
    assert!(accept.accepts_label(&2));
    assert!(!accept.accepts_label(&3));
    let accept_named: Panel<u8> =
        Panel::accept_named(LabelFilter::many(vec![1, 2]), "x".to_string(), at(0));
    assert_eq!(accept_named.name(), Some("x"));
    let all_named: Panel<u8> = Panel::accept_all_named("all".to_string(), at(0));
    assert_eq!(all_named.name(), Some("all"));
    assert!(all_named.accepts_label(&200));
    let all: Panel<u8> = Panel::accept_all(at(0));
    assert_eq!(all.name(), None);
    assert!(all.accepts_label(&200));
}

#[test]
fn a_rejected_observation_changes_nothing() {
    let (counter, counted) = probe("count", 1);
    let (in_child, child_counted) = probe("child", 1);
    let (extra, extra_counted) = probe("extra", 1);
    let mut child = Panel::accept_all(at(0));
    child.add_counter(boxed(in_child));
    let mut panel = Panel::new(LabelFilter::new(1u8), at(0));
    panel.add_counter(boxed(counter));
    panel.add_panel(child);
    panel.add_handler(boxed(extra));

    assert_eq!(panel.handle_observation(&one(2), at(7)), 0);
    assert_eq!(counted.load(Ordering::SeqCst), 0);
    assert_eq!(child_counted.load(Ordering::SeqCst), 0);
    assert_eq!(extra_counted.load(Ordering::SeqCst), 0);
    assert_eq!(panel.last_update, at(0));
}

#[test]
fn an_accepted_observation_reaches_every_part_once() {
    let (counter, counted) = probe("count", 1);
    let (gauge, gauged) = probe("gauge", 2);
    let (meter, metered) = probe("meter", 3);
    let (histogram, histogrammed) = probe("histogram", 4);
    let (in_child, child_counted) = probe("child", 5);
    let (in_deaf_child, deaf_child_counted) = probe("deaf", 100);
    let (extra, extra_counted) = probe("extra", 6);

    let mut child = Panel::accept_all(at(0));
    child.add_counter(boxed(in_child));
    let mut deaf_child = Panel::new(LabelFilter::new(9u8), at(0));
    deaf_child.add_counter(boxed(in_deaf_child));

    let mut panel = Panel::new(LabelFilter::new(1u8), at(0));
    panel.add_counter(boxed(counter));
    panel.add_gauge(boxed(gauge));
    panel.add_meter(boxed(meter));
    panel.add_histogram(boxed(histogram));
    panel.add_panel(child);
    panel.add_panel(deaf_child);
    panel.add_handler(boxed(extra));

    assert_eq!(panel.handle_observation(&one(1), at(7)), 1 + 2 + 3 + 4 + 5 + 6);
    assert_eq!(panel.last_update, at(7));
    assert_eq!(panel.panels[0].last_update, at(7));
    assert_eq!(panel.panels[1].last_update, at(0));
    for count in [&counted, &gauged, &metered, &histogrammed, &child_counted, &extra_counted] {
        assert_eq!(count.load(Ordering::SeqCst), 1);
    }
    assert_eq!(deaf_child_counted.load(Ordering::SeqCst), 0);

    assert_eq!(panel.handle_observation(&one(1), at(7)), 21);
    assert_eq!(counted.load(Ordering::SeqCst), 2);
}

#[test]
fn an_empty_panel_reports_nothing() {
    let mut panel: Panel<u8> = Panel::accept_all(at(0));
    assert_eq!(panel.handle_observation(&one(1), at(7)), 0);
}

#[test]
fn every_kind_of_observation_is_handed_on() {
    let (counter, counted) = probe("count", 1);
    let mut panel = Panel::accept_all(at(0));
    panel.add_counter(boxed(counter));
    assert_eq!(
        panel.handle_observation(
            &Observation::Observed { label: 1u8, count: 0, timestamp: at(1) },
            at(7)
        ),
        1
    );
    assert_eq!(panel.handle_observation(&one(1), at(7)), 1);
    assert_eq!(
        panel.handle_observation(
            &Observation::ObservedOneValue {
                label: 1u8,
                value: ObservedValue::Bool(true),
                timestamp: at(1),
            },
            at(7)
        ),
        1
    );
    assert_eq!(counted.load(Ordering::SeqCst), 3);
}

#[test]
fn the_count_stops_at_the_largest_number() {
    let (first, _) = probe("first", usize::MAX);
    let (second, second_counted) = probe("second", 5);
    let mut panel = Panel::accept_all(at(0));
    panel.add_counter(boxed(first));
    panel.add_gauge(boxed(second));
    assert_eq!(panel.handle_observation(&one(1), at(7)), usize::MAX);
    assert_eq!(second_counted.load(Ordering::SeqCst), 1);
}

#[test]
fn a_second_instrument_of_a_kind_joins_the_handlers() {
    let (first, first_counted) = probe("first", 1);
    let (second, second_counted) = probe("second", 1);
    let mut panel = Panel::accept_all(at(0));
    panel.add_counter(boxed(first));
    assert!(panel.counter.is_some());
    assert_eq!(panel.handlers.len(), 0);
    panel.add_counter(boxed(second));
    assert!(panel.counter.is_some());
    assert_eq!(panel.handlers.len(), 1);
    assert_eq!(panel.handle_observation(&one(1), at(7)), 2);
    assert_eq!(first_counted.load(Ordering::SeqCst), 1);
    assert_eq!(second_counted.load(Ordering::SeqCst), 1);
    assert_eq!(rendered(&panel, 0, false), with(active(), vec![uint("first", 1), uint("second", 1)]));
}

#[test]
fn the_same_holds_for_gauge_meter_and_histogram() {
    let mut panel: Panel<u8> = Panel::accept_all(at(0));
    panel.add_gauge(boxed(probe("g1", 1).0));
    panel.add_gauge(boxed(probe("g2", 1).0));
    assert!(panel.gauge.is_some());
    assert_eq!(panel.handlers.len(), 1);
    panel.add_meter(boxed(probe("m1", 1).0));
    panel.add_meter(boxed(probe("m2", 1).0));
    assert!(panel.meter.is_some());
    assert_eq!(panel.handlers.len(), 2);
    panel.add_histogram(boxed(probe("h1", 1).0));
    panel.add_histogram(boxed(probe("h2", 1).0));
    assert!(panel.histogram.is_some());
    assert_eq!(panel.handlers.len(), 3);
    assert_eq!(
        rendered(&panel, 0, false),
        with(
            active(),
            vec![uint("g1", 0), uint("m1", 0), uint("h1", 0), uint("g2", 0), uint("m2", 0), uint("h2", 0)]
        )
    );
}

#[test]
fn setting_a_place_replaces_what_is_there() {
    let (first, first_counted) = probe("first", 1);
    let (second, second_counted) = probe("second", 1);
    let mut panel = Panel::accept_all(at(0));
    panel.set_counter(boxed(first));
    panel.set_counter(boxed(second));
    assert_eq!(panel.handlers.len(), 0);
    assert_eq!(panel.handle_observation(&one(1), at(7)), 1);
    assert_eq!(first_counted.load(Ordering::SeqCst), 0);
    assert_eq!(second_counted.load(Ordering::SeqCst), 1);

    panel.set_gauge(boxed(probe("g", 1).0));
    panel.set_meter(boxed(probe("m", 1).0));
    panel.set_histogram(boxed(probe("h", 1).0));
    assert_eq!(
        rendered(&panel, 0, false),
        with(active(), vec![uint("second", 1), uint("g", 0), uint("m", 0), uint("h", 0)])
    );
}

#[test]
fn the_builders_do_what_the_adders_do() {
    let panel: Panel<u8> = Panel::accept_all(at(0))
        .counter(boxed(probe("c", 1).0))
        .gauge(boxed(probe("g", 1).0))
        .meter(boxed(probe("m", 1).0))
        .histogram(boxed(probe("h", 1).0))
        .panel(Panel::accept_all(at(0)).counter(boxed(probe("p", 1).0)))
        .snapshooter(BoxedSnapshooter::new(Fixed { name: "s".to_string(), value: -1 }))
        .handler(boxed(probe("x", 1).0))
        .instrument(probe("i", 1).0)
        .inactivity_limit(TimeSpan::from_nanos(10));
    assert_eq!(panel.max_inactivity_duration, Some(TimeSpan::from_nanos(10)));
    assert_eq!(panel.panels.len(), 1);
    assert_eq!(panel.snapshooters.len(), 1);
    assert_eq!(panel.handlers.len(), 2);
    assert_eq!(
        rendered(&panel, 5, false),
        vec![
            flag("_inactive", false),
            flag("_active", true),
            uint("c", 0),
            uint("g", 0),
            uint("m", 0),
            uint("h", 0),
            flag("_inactive", false),
            flag("_active", true),
            uint("p", 0),
            ("s".to_string(), ItemKind::Int(-1)),
            uint("x", 0),
            uint("i", 0),
        ]
    );
}

#[test]
fn an_added_instrument_gets_every_accepted_observation() {
    let (instrument, counted) = probe("i", 1);
    let mut panel = Panel::new(LabelFilter::new(1u8), at(0));
    panel.add_instrument(instrument);
    assert_eq!(panel.handlers.len(), 1);
    assert_eq!(panel.handle_observation(&one(1), at(7)), 1);
    assert_eq!(panel.handle_observation(&one(2), at(7)), 0);
    assert_eq!(counted.load(Ordering::SeqCst), 1);
}

#[test]
fn an_adapter_hands_on_what_its_filter_accepts() {
    let (instrument, counted) = probe("i", 3);
    let mut adapter = InstrumentAdapter::accept(LabelFilter::many(vec![1u8, 2]), instrument);
    assert!(adapter.accepts_label(&1));
    assert!(!adapter.accepts_label(&3));
    assert_eq!(adapter.handle_observation(&one(1), at(7)), 3);
    assert_eq!(adapter.handle_observation(&one(2), at(7)), 3);
    assert_eq!(adapter.handle_observation(&one(3), at(7)), 0);
    assert_eq!(counted.load(Ordering::SeqCst), 2);
    assert_eq!(adapter.instrument().name, "i");
    let mut snapshot = Snapshot::new();
    adapter.put_snapshot(&mut snapshot, at(0), false);
    assert_eq!(snapshot.items, vec![uint("i", 2)]);
}

#[test]
fn a_panel_without_a_name_writes_where_it_stands() {
    let mut panel: Panel<u8> = Panel::accept_all(at(0));
    panel.add_counter(boxed(probe("count", 1).0));
    let mut snapshot = Snapshot::new();
    snapshot.push("before".to_string(), ItemKind::Text("x".to_string()));
    panel.put_snapshot(&mut snapshot, at(0), false);
    assert_eq!(
        snapshot.items,
        vec![
            ("before".to_string(), ItemKind::Text("x".to_string())),
            flag("_inactive", false),
            flag("_active", true),
            uint("count", 0),
        ]
    );
}

#[test]
fn a_panel_with_a_name_nests_what_it_writes() {
    let mut panel: Panel<u8> = Panel::accept_all(at(0));
    panel.set_name("requests".to_string());
    panel.add_counter(boxed(probe("count", 1).0));
    let inner = Snapshot { items: with(active(), vec![uint("count", 0)]) };
    assert_eq!(rendered(&panel, 0, false), vec![("requests".to_string(), ItemKind::Snapshot(inner))]);
}

#[test]
fn title_and_description_show_in_descriptive_snapshots_only() {
    let mut panel: Panel<u8> = Panel::accept_all(at(0));
    panel.set_title("The title".to_string());
    panel.set_description("The description".to_string());
    assert_eq!(panel.title(), Some("The title"));
    assert_eq!(panel.description(), Some("The description"));
    assert_eq!(rendered(&panel, 0, false), active());
    assert_eq!(
        rendered(&panel, 0, true),
        vec![
            ("_title".to_string(), ItemKind::Text("The title".to_string())),
            ("_description".to_string(), ItemKind::Text("The description".to_string())),
            flag("_inactive", false),
            flag("_active", true),
        ]
    );
    let mut only_title: Panel<u8> = Panel::accept_all(at(0));
    only_title.set_title("T".to_string());
    assert_eq!(
        rendered(&only_title, 0, true),
        vec![
            ("_title".to_string(), ItemKind::Text("T".to_string())),
            flag("_inactive", false),
            flag("_active", true),
        ]
    );
}

#[test]
fn a_panel_without_a_limit_is_always_active() {
    let mut panel: Panel<u8> = Panel::accept_all(at(0));
    panel.add_counter(boxed(probe("count", 1).0));
    assert_eq!(rendered(&panel, 0, false), with(active(), vec![uint("count", 0)]));
    assert_eq!(rendered(&panel, u64::MAX, false), with(active(), vec![uint("count", 0)]));
    let empty: Panel<u8> = Panel::new(LabelFilter::new(1), at(0));
    assert_eq!(rendered(&empty, 5, false), active());
}

#[test]
fn an_inactive_panel_writes_only_its_flags() {
    let mut child: Panel<u8> = Panel::accept_all(at(100));
    child.add_counter(boxed(probe("child", 1).0));
    let mut panel: Panel<u8> = Panel::accept_all(at(100));
    panel.set_title("T".to_string());
    panel.add_counter(boxed(probe("count", 1).0));
    panel.add_panel(child);
    panel.add_snapshooter(BoxedSnapshooter::new(Fixed { name: "s".to_string(), value: 1 }));
    panel.set_inactivity_limit(TimeSpan::from_nanos(50));

    // Exactly the limit has passed: still active.
    assert_eq!(
        rendered(&panel, 150, false),
        vec![
            flag("_inactive", false),
            flag("_active", true),
            uint("count", 0),
            flag("_inactive", false),
            flag("_active", true),
            uint("child", 0),
            ("s".to_string(), ItemKind::Int(1)),
        ]
    );
    // One nanosecond more: inactive.
    assert_eq!(rendered(&panel, 151, false), inactive());
    assert_eq!(
        rendered(&panel, 151, true),
        vec![
            ("_title".to_string(), ItemKind::Text("T".to_string())),
            flag("_inactive", true),
            flag("_active", false),
        ]
    );
    // A time before the panel was made: no time has passed.
    assert_eq!(rendered(&panel, 0, false)[..2], [flag("_inactive", false), flag("_active", true)]);
}

#[test]
fn a_panel_with_fresh_activity_shows_its_values_again() {
    let mut panel: Panel<u8> = Panel::new(LabelFilter::new(1), at(0));
    panel.add_counter(boxed(probe("count", 1).0));
    panel.set_inactivity_limit(TimeSpan::from_nanos(10));
    assert_eq!(rendered(&panel, 100, false), inactive());
    // An observation that the panel rejects is no activity.
    assert_eq!(panel.handle_observation(&one(2), at(100)), 0);
    assert_eq!(panel.last_update, at(0));
    assert_eq!(rendered(&panel, 100, false), inactive());
    // One that it accepts is.
    assert_eq!(panel.handle_observation(&one(1), at(100)), 1);
    assert_eq!(panel.last_update, at(100));
    assert_eq!(rendered(&panel, 100, false), with(active(), vec![uint("count", 1)]));
    assert_eq!(rendered(&panel, 110, false), with(active(), vec![uint("count", 1)]));
    assert_eq!(rendered(&panel, 111, false), inactive());
}

/// Notes its name in a list that it shares with others when it is handed an
/// observation.
struct Tracer {
    name: String,
    trace: Arc<Mutex<Vec<String>>>,
}

impl Updates for Tracer {
    fn update(&mut self, _with: &Update) -> usize {
        self.trace.lock().unwrap().push(self.name.clone());
        1
    }
}

impl PutsSnapshot for Tracer {
    fn put_snapshot(&self, _into: &mut Snapshot, _now: Timestamp, _descriptive: bool) {}
}

impl Instrument for Tracer {}

#[test]
fn the_parts_are_served_in_a_fixed_order() {
    let trace = Arc::new(Mutex::new(Vec::new()));
    let tracer = |name: &str| {
        BoxedHandler::new(InstrumentAdapter::new(Tracer {
            name: name.to_string(),
            trace: trace.clone(),
        }))
    };
    let mut panel: Panel<u8> = Panel::accept_all(at(0));
    // Added in an order that is not the order of serving.
    panel.add_handler(tracer("handler 1"));
    panel.add_panel(Panel::accept_all(at(0)).handler(tracer("child 1 handler")).counter(tracer("child 1 counter")));
    panel.add_histogram(tracer("histogram"));
    panel.add_handler(tracer("handler 2"));
    panel.add_meter(tracer("meter"));
    panel.add_panel(Panel::accept_all(at(0)).counter(tracer("child 2 counter")));
    panel.add_gauge(tracer("gauge"));
    panel.add_counter(tracer("counter"));
    assert_eq!(panel.handle_observation(&one(1), at(1)), 9);
    assert_eq!(
        *trace.lock().unwrap(),
        vec![
            "counter",
            "gauge",
            "meter",
            "histogram",
            "child 1 counter",
            "child 1 handler",
            "child 2 counter",
            "handler 1",
            "handler 2",
        ]
    );
}

#[test]
fn an_inactive_child_hides_only_itself() {
    let mut child: Panel<u8> = Panel::accept_all_named("child".to_string(), at(0));
    child.add_counter(boxed(probe("hidden", 1).0));
    child.set_inactivity_limit(TimeSpan::from_nanos(1));
    let mut panel: Panel<u8> = Panel::accept_all(at(0));
    panel.add_counter(boxed(probe("count", 1).0));
    panel.add_panel(child);
    let mut inner = Snapshot::new();
    inner.push("_inactive".to_string(), ItemKind::Boolean(true));
    inner.push("_active".to_string(), ItemKind::Boolean(false));
    assert_eq!(
        rendered(&panel, 10, false),
        with(active(), vec![uint("count", 0), ("child".to_string(), ItemKind::Snapshot(inner))])
    );
}

//! The panel: a node of the tree that shows the observations made under
//! its labels in several ways at once.
use vstd::prelude::*;
use vstd::std_specs::cmp::PartialEqSpec;

use super::{Instrument, InstrumentAdapter, LabelFilter};
use crate::capability::{
    all_reported, all_took, dispatch_to_handlers, handler_records, handlers_in_order,
    lemma_reported_nonnegative, reported,
    saturated, text_of,
    took, BoxedHandler, BoxedSnapshooter, Descriptive, HandlesObservations, Part, PutsSnapshot,
};
use crate::observation::Observation;
use crate::render::{
    handler_part, lemma_none_rendered, lemma_one_more_rendered, lemma_prefix_of_prefix, render_handlers,
    render_snapshooters, rendered_in_order, snapshooter_part,
};
use crate::snapshot::{ItemKind, ItemView, Snapshot};
use crate::time::{TimeSpan, Timestamp};
use crate::util::{descriptives, is_inactive, liveness, put_default_descriptives, put_liveness};

verus! {

/// A routing node with a place for one counter, one gauge, one meter and one
/// histogram, and with any number of child panels, further handlers and
/// contributors that only write into snapshots.
///
/// Observations whose label the filter rejects go no further than the panel.
/// All others are handed to the four places, then to the child panels, then
/// to the handlers, always in this order.
#[verifier::reject_recursive_types(L)]
pub struct Panel<L> {
    pub label_filter: LabelFilter<L>,
    pub name: Option<String>,
    pub title: Option<String>,
    pub description: Option<String>,
    pub counter: Option<BoxedHandler<L>>,
    pub gauge: Option<BoxedHandler<L>>,
    pub meter: Option<BoxedHandler<L>>,
    pub histogram: Option<BoxedHandler<L>>,
    pub panels: Vec<Panel<L>>,
    pub handlers: Vec<BoxedHandler<L>>,
    pub snapshooters: Vec<BoxedSnapshooter>,
    pub last_update: Timestamp,
    pub max_inactivity_duration: Option<TimeSpan>,
    /// The record of what the panel handled: the observations, oldest
    /// first, each with the count that the panel reported.
    pub handled: Ghost<Seq<(Observation<L>, usize)>>,
    /// The journal of the panel: which part was handed an observation,
    /// in the order in which it happened.
    pub served: Ghost<Seq<Part>>,
}

/// The record of the handler in one of the four places, if there is one.
pub open spec fn slot_records<L: 'static>(slot: Option<BoxedHandler<L>>) -> Seq<
    Seq<(Observation<L>, usize)>,
> {
    match slot {
        Some(handler) => seq![handler.handled()],
        None => Seq::empty(),
    }
}

/// The records of a list of panels, in the order of the list.
pub open spec fn panel_records<L>(panels: Seq<Panel<L>>) -> Seq<Seq<(Observation<L>, usize)>> {
    Seq::new(panels.len(), |i: int| panels[i].handled@)
}

/// The first `count` child panels of a list, first to last.
pub open spec fn panels_in_order(count: int) -> Seq<Part> {
    Seq::new(count as nat, |i: int| Part::Panel(i))
}

/// What the journal gains when one of the four places has its turn: the
/// place, if it is filled.
pub open spec fn slot_in_order<L: 'static>(slot: Option<BoxedHandler<L>>, part: Part) -> Seq<Part> {
    if slot is Some {
        seq![part]
    } else {
        Seq::empty()
    }
}

/// What the handler in one of the four places notes as its last count is a
/// count that it may report for `observation` at `now`.
pub open spec fn slot_reported<L: 'static>(
    before: Option<BoxedHandler<L>>,
    after: Option<BoxedHandler<L>>,
    observation: Observation<L>,
    now: Timestamp,
) -> bool {
    before matches Some(handler) ==> after is Some && handler.inner.reports(
        &observation,
        now,
        after->0.handled().last().1,
    )
}

/// Hands `observation` to the handler in one of the four places, if there
/// is one, notes the place in the journal of the panel and says what the
/// handler reported.
pub fn dispatch_to_slot<L: 'static>(
    slot: &mut Option<BoxedHandler<L>>,
    observation: &Observation<L>,
    now: Timestamp,
    Ghost(part): Ghost<Part>,
    served: &mut Ghost<Seq<Part>>,
) -> (n: usize)
    ensures
        (*final(slot) is Some) == (*old(slot) is Some),
        all_took(slot_records(*old(slot)), slot_records(*final(slot)), *observation),
        slot_reported(*old(slot), *final(slot), *observation, now),
        n == reported(slot_records(*final(slot))),
        final(served)@ == old(served)@ + slot_in_order(*old(slot), part),
{
    match slot {
        Some(handler) => {
            let n = handler.handle_observation(observation, now);
            proof {
                let after = slot_records(*slot);
                assert(after[0].drop_last() == slot_records(*old(slot))[0]);
                assert(after.drop_last() == Seq::<Seq<(Observation<L>, usize)>>::empty());
                assert(reported(after.drop_last()) == 0);
                served@ = served@.push(part);
                assert(served@ =~= old(served)@ + seq![part]);
            }
            n
        },
        None => {
            assert(served@ =~= old(served)@ + Seq::<Part>::empty());
            0
        },
    }
}

impl<L> Panel<L> {
    /// The text of the name, if the panel has one.
    pub open spec fn name_text(&self) -> Option<Seq<char>> {
        match self.name {
            Some(name) => Some(name@),
            None => None,
        }
    }

    /// The panel as it is but for the record of what it handled, which has
    /// one more line.
    pub open spec fn with_line(self, observation: Observation<L>, n: usize) -> Panel<L> {
        Panel { handled: Ghost(self.handled@.push((observation, n))), ..self }
    }

    /// What the parts of the panel reported when they last handled an
    /// observation, added up.
    pub open spec fn reported_by_parts(&self) -> int {
        reported(slot_records(self.counter)) + reported(slot_records(self.gauge)) + reported(
            slot_records(self.meter),
        ) + reported(slot_records(self.histogram)) + reported(panel_records(self.panels@)) + reported(
            handler_records(self.handlers@),
        )
    }

    /// Nothing but the records of the parts, the record and the journal of
    /// the panel itself and the time of its last update differs between
    /// `self` and `after`.
    pub open spec fn same_setup(&self, after: &Panel<L>) -> bool {
        &&& after.label_filter == self.label_filter
        &&& after.name == self.name
        &&& after.title == self.title
        &&& after.description == self.description
        &&& (after.counter is Some) == (self.counter is Some)
        &&& (after.gauge is Some) == (self.gauge is Some)
        &&& (after.meter is Some) == (self.meter is Some)
        &&& (after.histogram is Some) == (self.histogram is Some)
        &&& after.panels.len() == self.panels.len()
        &&& after.handlers.len() == self.handlers.len()
        &&& after.snapshooters == self.snapshooters
        &&& after.max_inactivity_duration == self.max_inactivity_duration
    }

    /// The parts of the panel in the order in which they are handed an
    /// observation: the counter, the gauge, the meter, the histogram, the
    /// child panels first to last, the handlers first to last.
    pub open spec fn order(&self) -> Seq<Part> {
        slot_in_order(self.counter, Part::Counter) + slot_in_order(self.gauge, Part::Gauge) + slot_in_order(
            self.meter,
            Part::Meter,
        ) + slot_in_order(self.histogram, Part::Histogram) + panels_in_order(self.panels.len() as int)
            + handlers_in_order(self.handlers.len() as int)
    }

    /// A panel as the constructors make it: with the given filter and name,
    /// created at `now`, and with nothing else in it.
    pub open spec fn is_fresh(&self, accept: LabelFilter<L>, name: Option<Seq<char>>, now: Timestamp) -> bool {
        &&& self.label_filter == accept
        &&& self.name_text() == name
        &&& self.title is None
        &&& self.description is None
        &&& self.counter is None
        &&& self.gauge is None
        &&& self.meter is None
        &&& self.histogram is None
        &&& self.panels@.len() == 0
        &&& self.handlers@.len() == 0
        &&& self.snapshooters@.len() == 0
        &&& self.last_update == now
        &&& self.max_inactivity_duration is None
        &&& self.handled@.len() == 0
        &&& self.served@.len() == 0
    }

    /// `after` is `self` with `handler` behind the other handlers.
    pub open spec fn handler_added(&self, handler: BoxedHandler<L>, after: &Panel<L>) -> bool {
        &&& *after == Panel { handlers: after.handlers, ..*self }
        &&& after.handlers@ =~= self.handlers@.push(handler)
    }

    /// `after` is `self` with `counter` in the place for the counter, or
    /// among the handlers if the place was taken.
    pub open spec fn counter_added(&self, counter: BoxedHandler<L>, after: &Panel<L>) -> bool {
        if self.counter is None {
            *after == Panel { counter: Some(counter), ..*self }
        } else {
            self.handler_added(counter, after)
        }
    }

    /// `after` is `self` with `gauge` in the place for the gauge, or among
    /// the handlers if the place was taken.
    pub open spec fn gauge_added(&self, gauge: BoxedHandler<L>, after: &Panel<L>) -> bool {
        if self.gauge is None {
            *after == Panel { gauge: Some(gauge), ..*self }
        } else {
            self.handler_added(gauge, after)
        }
    }

    /// `after` is `self` with `meter` in the place for the meter, or among
    /// the handlers if the place was taken.
    pub open spec fn meter_added(&self, meter: BoxedHandler<L>, after: &Panel<L>) -> bool {
        if self.meter is None {
            *after == Panel { meter: Some(meter), ..*self }
        } else {
            self.handler_added(meter, after)
        }
    }

    /// `after` is `self` with `histogram` in the place for the histogram, or
    /// among the handlers if the place was taken.
    pub open spec fn histogram_added(&self, histogram: BoxedHandler<L>, after: &Panel<L>) -> bool {
        if self.histogram is None {
            *after == Panel { histogram: Some(histogram), ..*self }
        } else {
            self.handler_added(histogram, after)
        }
    }

    /// `after` is `self` with one more handler behind the others, to which
    /// nothing was handed yet.
    pub open spec fn handler_appended(&self, after: &Panel<L>) -> bool {
        exists|handler: BoxedHandler<L>|
            #[trigger] self.handler_added(handler, after) && handler.handled@.len() == 0
    }

    /// `after` is `self` with `panel` behind the other child panels.
    pub open spec fn panel_added(&self, panel: Panel<L>, after: &Panel<L>) -> bool {
        &&& *after == Panel { panels: after.panels, ..*self }
        &&& after.panels@ =~= self.panels@.push(panel)
    }

    /// `after` is `self` with `snapshooter` behind the other contributors.
    pub open spec fn snapshooter_added(&self, snapshooter: BoxedSnapshooter, after: &Panel<L>) -> bool {
        &&& *after == Panel { snapshooters: after.snapshooters, ..*self }
        &&& after.snapshooters@ =~= self.snapshooters@.push(snapshooter)
    }
}

impl<L: Eq + Send + 'static> Panel<L> {
    /// A panel without a name for the labels that `accept` accepts.
    pub fn new(accept: LabelFilter<L>, now: Timestamp) -> (panel: Panel<L>)
        ensures
            panel.is_fresh(accept, None, now),
    {
        Panel {
            label_filter: accept,
            name: None,
            title: None,
            description: None,
            counter: None,
            gauge: None,
            meter: None,
            histogram: None,
            panels: Vec::new(),
            handlers: Vec::new(),
            snapshooters: Vec::new(),
            last_update: now,
            max_inactivity_duration: None,
            handled: Ghost(Seq::empty()),
            served: Ghost(Seq::empty()),
        }
    }

    /// A panel with a name for the labels that `accept` accepts.
    pub fn named(accept: LabelFilter<L>, name: String, now: Timestamp) -> (panel: Panel<L>)
        ensures
            panel.is_fresh(accept, Some(name@), now),
    {
        let mut panel = Self::new(accept, now);
        panel.name = Some(name);
        panel
    }

    /// A panel with a name for one label. Same as `named` with a filter for
    /// that label.
    pub fn with_name(label: L, name: String, now: Timestamp) -> (panel: Panel<L>)
        ensures
            panel.is_fresh(LabelFilter::One(label), Some(name@), now),
    {
        Self::named(LabelFilter::new(label), name, now)
    }

    /// A panel without a name for the labels that `accept` accepts.
    pub fn accept(accept: LabelFilter<L>, now: Timestamp) -> (panel: Panel<L>)
        ensures
            panel.is_fresh(accept, None, now),
    {
        Self::new(accept, now)
    }

    /// A panel with a name for the labels that `accept` accepts.
    pub fn accept_named(accept: LabelFilter<L>, name: String, now: Timestamp) -> (panel: Panel<L>)
        ensures
            panel.is_fresh(accept, Some(name@), now),
    {
        Self::named(accept, name, now)
    }

    /// A panel with a name that accepts every label.
    pub fn accept_all_named(name: String, now: Timestamp) -> (panel: Panel<L>)
        ensures
            panel.is_fresh(LabelFilter::AcceptAll, Some(name@), now),
    {
        Self::named(LabelFilter::AcceptAll, name, now)
    }

    /// A panel without a name that accepts every label.
    pub fn accept_all(now: Timestamp) -> (panel: Panel<L>)
        ensures
            panel.is_fresh(LabelFilter::AcceptAll, None, now),
    {
        Self::new(LabelFilter::AcceptAll, now)
    }

    /// Puts `counter` into the place for the counter, whatever is there.
    pub fn set_counter(&mut self, counter: BoxedHandler<L>)
        ensures
            *final(self) == (Panel { counter: Some(counter), ..*old(self) }),
    {
        self.counter = Some(counter);
    }

    /// Puts `counter` into the place for the counter. If the place is
    /// taken, `counter` joins the handlers, so that it still gets every
    /// observation.
    pub fn add_counter(&mut self, counter: BoxedHandler<L>)
        ensures
            old(self).counter_added(counter, final(self)),
    {
        if self.counter.is_none() {
            self.counter = Some(counter);
        } else {
            self.add_handler(counter)
        }
    }

    /// The panel with `counter` added as `add_counter` adds it.
    pub fn counter(self, counter: BoxedHandler<L>) -> (panel: Panel<L>)
        ensures
            self.counter_added(counter, &panel),
    {
        let mut panel = self;
        panel.add_counter(counter);
        panel
    }

    /// Puts `gauge` into the place for the gauge, whatever is there.
    pub fn set_gauge(&mut self, gauge: BoxedHandler<L>)
        ensures
            *final(self) == (Panel { gauge: Some(gauge), ..*old(self) }),
    {
        self.gauge = Some(gauge);
    }

    /// The panel with `gauge` added as `add_gauge` adds it.
    pub fn gauge(self, gauge: BoxedHandler<L>) -> (panel: Panel<L>)
        ensures
            self.gauge_added(gauge, &panel),
    {
        let mut panel = self;
        panel.add_gauge(gauge);
        panel
    }

    /// Puts `gauge` into the place for the gauge. If the place is taken,
    /// `gauge` joins the handlers.
    pub fn add_gauge(&mut self, gauge: BoxedHandler<L>)
        ensures
            old(self).gauge_added(gauge, final(self)),
    {
        if self.gauge.is_none() {
            self.gauge = Some(gauge);
        } else {
            self.add_handler(gauge)
        }
    }

    /// Puts `meter` into the place for the meter, whatever is there.
    pub fn set_meter(&mut self, meter: BoxedHandler<L>)
        ensures
            *final(self) == (Panel { meter: Some(meter), ..*old(self) }),
    {
        self.meter = Some(meter);
    }

    /// The panel with `meter` added as `add_meter` adds it.
    pub fn meter(self, meter: BoxedHandler<L>) -> (panel: Panel<L>)
        ensures
            self.meter_added(meter, &panel),
    {
        let mut panel = self;
        panel.add_meter(meter);
        panel
    }

    /// Puts `meter` into the place for the meter. If the place is taken,
    /// `meter` joins the handlers.
    pub fn add_meter(&mut self, meter: BoxedHandler<L>)
        ensures
            old(self).meter_added(meter, final(self)),
    {
        if self.meter.is_none() {
            self.meter = Some(meter);
        } else {
            self.add_handler(meter)
        }
    }

    /// Puts `histogram` into the place for the histogram, whatever is there.
    pub fn set_histogram(&mut self, histogram: BoxedHandler<L>)
        ensures
            *final(self) == (Panel { histogram: Some(histogram), ..*old(self) }),
    {
        self.histogram = Some(histogram);
    }

    /// Puts `histogram` into the place for the histogram. If the place is
    /// taken, `histogram` joins the handlers.
    pub fn add_histogram(&mut self, histogram: BoxedHandler<L>)
        ensures
            old(self).histogram_added(histogram, final(self)),
    {
        if self.histogram.is_none() {
            self.histogram = Some(histogram);
        } else {
            self.add_handler(histogram)
        }
    }

    /// The panel with `histogram` added as `add_histogram` adds it.
    pub fn histogram(self, histogram: BoxedHandler<L>) -> (panel: Panel<L>)
        ensures
            self.histogram_added(histogram, &panel),
    {
        let mut panel = self;
        panel.add_histogram(histogram);
        panel
    }

    /// Adds a contributor that only writes into snapshots.
    pub fn add_snapshooter(&mut self, snapshooter: BoxedSnapshooter)
        ensures
            old(self).snapshooter_added(snapshooter, final(self)),
    {
        self.snapshooters.push(snapshooter);
    }

    /// The panel with `snapshooter` added.
    pub fn snapshooter(self, snapshooter: BoxedSnapshooter) -> (panel: Panel<L>)
        ensures
            self.snapshooter_added(snapshooter, &panel),
    {
        let mut panel = self;
        panel.add_snapshooter(snapshooter);
        panel
    }

    /// Adds an instrument as a handler that is given every observation the
    /// panel accepts.
    pub fn add_instrument<I: Instrument>(&mut self, instrument: I)
        ensures
            old(self).handler_appended(final(self)),
    {
        let handler = BoxedHandler::new(InstrumentAdapter::new(instrument));
        let ghost added = handler;
        self.add_handler(handler);
        assert(old(self).handler_added(added, self));
    }

    /// The panel with `instrument` added as `add_instrument` adds it.
    pub fn instrument<I: Instrument>(self, instrument: I) -> (panel: Panel<L>)
        ensures
            self.handler_appended(&panel),
    {
        let mut panel = self;
        panel.add_instrument(instrument);
        panel
    }

    /// Adds a child panel behind the others.
    pub fn add_panel(&mut self, panel: Panel<L>)
        ensures
            old(self).panel_added(panel, final(self)),
    {
        self.panels.push(panel);
    }

    /// The panel with `panel` added as a child.
    pub fn panel(self, panel: Panel<L>) -> (parent: Panel<L>)
        ensures
            self.panel_added(panel, &parent),
    {
        let mut parent = self;
        parent.add_panel(panel);
        parent
    }

    /// Adds a handler behind the others.
    pub fn add_handler(&mut self, handler: BoxedHandler<L>)
        ensures
            old(self).handler_added(handler, final(self)),
    {
        self.handlers.push(handler);
    }

    /// The panel with `handler` added.
    pub fn handler(self, handler: BoxedHandler<L>) -> (panel: Panel<L>)
        ensures
            self.handler_added(handler, &panel),
    {
        let mut panel = self;
        panel.add_handler(handler);
        panel
    }

    /// The name of the panel, under which it nests what it writes.
    pub fn name(&self) -> (name: Option<&str>)
        ensures
            text_of(name) == self.name_text(),
    {
        match &self.name {
            Some(name) => Some(name.as_str()),
            None => None,
        }
    }

    /// Gives the panel a name. A panel with a name writes a nested snapshot
    /// under that name.
    pub fn set_name(&mut self, name: String)
        ensures
            *final(self) == (Panel { name: Some(name), ..*old(self) }),
    {
        self.name = Some(name);
    }

    /// Gives the panel a title, which descriptive snapshots show.
    pub fn set_title(&mut self, title: String)
        ensures
            *final(self) == (Panel { title: Some(title), ..*old(self) }),
    {
        self.title = Some(title)
    }

    /// Gives the panel a description, which descriptive snapshots show.
    pub fn set_description(&mut self, description: String)
        ensures
            *final(self) == (Panel { description: Some(description), ..*old(self) }),
    {
        self.description = Some(description)
    }

    /// The panel with a limit on how long it may be idle before it stops
    /// showing its values.
    pub fn inactivity_limit(self, limit: TimeSpan) -> (panel: Panel<L>)
        ensures
            panel == (Panel { max_inactivity_duration: Some(limit), ..self }),
    {
        let mut panel = self;
        panel.set_inactivity_limit(limit);
        panel
    }

    /// Sets how long the panel may be idle before it stops showing its
    /// values. Without a limit it always shows them.
    pub fn set_inactivity_limit(&mut self, limit: TimeSpan)
        ensures
            *final(self) == (Panel { max_inactivity_duration: Some(limit), ..*old(self) }),
    {
        self.max_inactivity_duration = Some(limit);
    }

    /// Whether the panel hands on observations made under `label`.
    pub fn accepts_label(&self, label: &L) -> (accepted: bool)
        ensures
            L::obeys_eq_spec() ==> accepted == self.label_filter.accepts_spec(label),
    {
        self.label_filter.accepts(label)
    }

    /// Whether `after` is what handling `observation` at `now` makes of
    /// `self`.
    ///
    /// A panel whose filter rejects the label notes the observation with a
    /// count of 0 and is otherwise as before. A panel whose filter accepts
    /// it takes `now` as the time of its last update. It has handed the
    /// observation once to each of its four places that is filled, to each
    /// child panel and to each handler, in this order, as its journal
    /// tells; what the records say that they reported is what they did
    /// report; every child panel has in turn done what this says; and the
    /// count that the panel notes is the sum of what all of these reported,
    /// as far as `usize` holds it.
    pub open spec fn dispatched(&self, observation: &Observation<L>, now: Timestamp, after: &Panel<L>) -> bool
        decreases self,
    {
        if !self.label_filter.accepts_spec(&observation.label_of()) {
            *after == self.with_line(*observation, 0)
        } else {
            &&& self.same_setup(after)
            &&& after.last_update == now
            &&& after.served@ =~= self.served@ + self.order()
            &&& took(self.handled@, after.handled@, *observation)
            &&& all_took(slot_records(self.counter), slot_records(after.counter), *observation)
            &&& all_took(slot_records(self.gauge), slot_records(after.gauge), *observation)
            &&& all_took(slot_records(self.meter), slot_records(after.meter), *observation)
            &&& all_took(slot_records(self.histogram), slot_records(after.histogram), *observation)
            &&& slot_reported(self.counter, after.counter, *observation, now)
            &&& slot_reported(self.gauge, after.gauge, *observation, now)
            &&& slot_reported(self.meter, after.meter, *observation, now)
            &&& slot_reported(self.histogram, after.histogram, *observation, now)
            &&& forall|i: int|
                0 <= i < self.panels.len() ==> (#[trigger] self.panels@[i]).dispatched(
                    observation,
                    now,
                    &after.panels@[i],
                )
            &&& all_took(handler_records(self.handlers@), handler_records(after.handlers@), *observation)
            &&& all_reported(self.handlers@, after.handlers@, *observation, now)
            &&& after.handled@.last().1 == saturated(after.reported_by_parts())
        }
    }
}

/// Hands `observation` to every panel, first to last, and adds up what they
/// report. `served` is the journal of the node that owns the panels: each
/// panel is noted in it when its turn comes.
pub fn dispatch_to_panels<L: Eq + Send + 'static>(
    panels: &mut Vec<Panel<L>>,
    observation: &Observation<L>,
    now: Timestamp,
    served: &mut Ghost<Seq<Part>>,
) -> (n: usize)
    ensures
        final(panels).len() == old(panels).len(),
        all_took(panel_records(old(panels)@), panel_records(final(panels)@), *observation),
        L::obeys_eq_spec() ==> forall|i: int|
            0 <= i < old(panels).len() ==> (#[trigger] old(panels)@[i]).dispatched(
                observation,
                now,
                &final(panels)@[i],
            ),
        n == saturated(reported(panel_records(final(panels)@))),
        final(served)@ == old(served)@ + panels_in_order(old(panels).len() as int),
    decreases *old(panels),
{
    let mut sum: usize = 0;
    let mut i: usize = 0;
    while i < panels.len()
        invariant
            i <= panels.len(),
            panels.len() == old(panels).len(),
            forall|j: int|
                0 <= j < i ==> took(
                    #[trigger] panel_records(old(panels)@)[j],
                    panel_records(panels@)[j],
                    *observation,
                ),
            L::obeys_eq_spec() ==> forall|j: int|
                0 <= j < i ==> (#[trigger] old(panels)@[j]).dispatched(observation, now, &panels@[j]),
            forall|j: int| i <= j < panels.len() ==> panels@[j] == old(panels)@[j],
            sum == saturated(reported(panel_records(panels@).take(i as int))),
            served@ == old(served)@ + panels_in_order(i as int),
        decreases panels.len() - i,
    {
        let ghost before = panels@;
        let k = panels[i].handle_observation(observation, now);
        proof {
            let records = panel_records(panels@);
            assert(records.take(i as int) == panel_records(before).take(i as int));
            assert(records.take(i as int + 1).drop_last() == records.take(i as int));
            assert(records[i as int].drop_last() == panel_records(before)[i as int]);
            lemma_reported_nonnegative(records.take(i as int));
            assert(panels_in_order(i as int).push(Part::Panel(i as int)) == panels_in_order(i as int + 1));
            served@ = served@.push(Part::Panel(i as int));
        }
        sum = sum.saturating_add(k);
        i = i + 1;
    }
    proof {
        let records = panel_records(panels@);
        assert(records.take(i as int) == records);
    }
    sum
}

/// What the handler in one of the four places may write: nothing where the
/// place is empty.
pub open spec fn slot_renders<L: 'static>(
    slot: Option<BoxedHandler<L>>,
    now: Timestamp,
    descriptive: bool,
    items: Seq<(Seq<char>, ItemView)>,
) -> bool {
    match slot {
        Some(handler) => handler.renders(now, descriptive, items),
        None => items.len() == 0,
    }
}

/// Lets the handler in one of the four places write into the snapshot.
pub fn render_slot<L: 'static>(
    slot: &Option<BoxedHandler<L>>,
    into: &mut Snapshot,
    now: Timestamp,
    descriptive: bool,
)
    ensures
        old(into)@.is_prefix_of(final(into)@),
        slot_renders(*slot, now, descriptive, final(into)@.skip(old(into)@.len() as int)),
{
    match slot {
        Some(handler) => handler.put_snapshot(into, now, descriptive),
        None => {
            assert(into@.skip(into@.len() as int).len() == 0);
        },
    }
}

/// What may be written by the panel at place `i` of `panels`.
pub open spec fn panel_part<L: Eq + Send + 'static>(
    panels: Seq<Panel<L>>,
    now: Timestamp,
    descriptive: bool,
) -> spec_fn(int, Seq<(Seq<char>, ItemView)>) -> bool
    decreases panels, 3int,
{
    |i: int, items: Seq<(Seq<char>, ItemView)>|
        0 <= i < panels.len() && panels[i].renders(now, descriptive, items)
}

/// Lets every panel write into the snapshot, first to last.
pub fn render_panels<L: Eq + Send + 'static>(
    panels: &Vec<Panel<L>>,
    into: &mut Snapshot,
    now: Timestamp,
    descriptive: bool,
)
    ensures
        old(into)@.is_prefix_of(final(into)@),
        rendered_in_order(
            panels.len() as int,
            panel_part(panels@, now, descriptive),
            final(into)@.skip(old(into)@.len() as int),
        ),
    decreases *panels,
{
    let ghost part = panel_part(panels@, now, descriptive);
    let ghost start = into@.len() as int;
    proof {
        lemma_none_rendered(part);
        assert(into@.skip(start) == Seq::<(Seq<char>, ItemView)>::empty());
    }
    let mut i: usize = 0;
    while i < panels.len()
        invariant
            i <= panels.len(),
            start == old(into)@.len(),
            part == panel_part(panels@, now, descriptive),
            old(into)@.is_prefix_of(into@),
            rendered_in_order(i as int, part, into@.skip(start)),
        decreases panels.len() - i,
    {
        let ghost before = into@;
        panels[i].put_snapshot(into, now, descriptive);
        proof {
            assert(into@.skip(start).skip(before.skip(start).len() as int) == into@.skip(
                before.len() as int,
            ));
            lemma_one_more_rendered(i as int, part, before.skip(start), into@.skip(start));
        }
        i = i + 1;
    }
}

impl<L: Eq + Send + 'static> Panel<L> {
    /// Writes what the panel shows below its name: the head and, unless the
    /// panel is inactive, what its parts write, group by group.
    pub fn put_values_into_snapshot(&self, into: &mut Snapshot, now: Timestamp, descriptive: bool)
        ensures
            old(into)@.is_prefix_of(final(into)@),
            self.renders_values(now, descriptive, final(into)@.skip(old(into)@.len() as int)),
        decreases *self, 1int,
    {
        let ghost first = into@.len() as int;
        let ghost part = self.group_part(now, descriptive);
        put_default_descriptives(self, into, descriptive);
        let inactive = put_liveness(into, self.last_update, self.max_inactivity_duration, now);
        let ghost start = into@.len() as int;
        proof {
            assert(into@.skip(first) == self.head(now, descriptive));
            assert(old(into)@.is_prefix_of(into@));
        }
        if inactive {
            return ;
        }
        let ghost headed = into@;
        proof {
            lemma_none_rendered(part);
            assert(into@.skip(start) == Seq::<(Seq<char>, ItemView)>::empty());
        }
        let ghost before = into@;
        render_slot(&self.counter, into, now, descriptive);
        proof {
            assert(into@.skip(start).skip(before.skip(start).len() as int) == into@.skip(
                before.len() as int,
            ));
            lemma_prefix_of_prefix(old(into)@, before, into@);
            lemma_one_more_rendered(0, part, before.skip(start), into@.skip(start));
        }
        let ghost before = into@;
        render_slot(&self.gauge, into, now, descriptive);
        proof {
            assert(into@.skip(start).skip(before.skip(start).len() as int) == into@.skip(
                before.len() as int,
            ));
            lemma_prefix_of_prefix(old(into)@, before, into@);
            lemma_one_more_rendered(1, part, before.skip(start), into@.skip(start));
        }
        let ghost before = into@;
        render_slot(&self.meter, into, now, descriptive);
        proof {
            assert(into@.skip(start).skip(before.skip(start).len() as int) == into@.skip(
                before.len() as int,
            ));
            lemma_prefix_of_prefix(old(into)@, before, into@);
            lemma_one_more_rendered(2, part, before.skip(start), into@.skip(start));
        }
        let ghost before = into@;
        render_slot(&self.histogram, into, now, descriptive);
        proof {
            assert(into@.skip(start).skip(before.skip(start).len() as int) == into@.skip(
                before.len() as int,
            ));
            lemma_prefix_of_prefix(old(into)@, before, into@);
            lemma_one_more_rendered(3, part, before.skip(start), into@.skip(start));
        }
        let ghost before = into@;
        render_panels(&self.panels, into, now, descriptive);
        proof {
            assert(into@.skip(start).skip(before.skip(start).len() as int) == into@.skip(
                before.len() as int,
            ));
            lemma_prefix_of_prefix(old(into)@, before, into@);
            lemma_one_more_rendered(4, part, before.skip(start), into@.skip(start));
        }
        let ghost before = into@;
        render_snapshooters(&self.snapshooters, into, now, descriptive);
        proof {
            assert(into@.skip(start).skip(before.skip(start).len() as int) == into@.skip(
                before.len() as int,
            ));
            lemma_prefix_of_prefix(old(into)@, before, into@);
            lemma_one_more_rendered(5, part, before.skip(start), into@.skip(start));
        }
        let ghost before = into@;
        render_handlers(&self.handlers, into, now, descriptive);
        proof {
            assert(into@.skip(start).skip(before.skip(start).len() as int) == into@.skip(
                before.len() as int,
            ));
            lemma_prefix_of_prefix(old(into)@, before, into@);
            lemma_one_more_rendered(6, part, before.skip(start), into@.skip(start));
            let written = into@.skip(first);
            let head = self.head(now, descriptive);
            assert(headed.skip(first) == head);
            assert(head.is_prefix_of(written));
            assert(written.skip(head.len() as int) == into@.skip(start));
        }
    }

    /// Whether the panel has been idle at `now` for longer than its limit.
    pub open spec fn is_inactive_at(&self, now: Timestamp) -> bool {
        is_inactive(self.last_update, self.max_inactivity_duration, now)
    }

    /// What the panel writes before its parts: title and description in a
    /// descriptive snapshot, then the liveness flags.
    pub open spec fn head(&self, now: Timestamp, descriptive: bool) -> Seq<(Seq<char>, ItemView)> {
        descriptives(self.title_text(), self.description_text(), descriptive) + liveness(
            self.last_update,
            self.max_inactivity_duration,
            now,
        )
    }

    /// What the seven groups of parts may write: the counter, the gauge, the
    /// meter, the histogram, the child panels, the contributors and the
    /// handlers.
    pub open spec fn group_part(&self, now: Timestamp, descriptive: bool) -> spec_fn(
        int,
        Seq<(Seq<char>, ItemView)>,
    ) -> bool
        decreases self, 0int,
    {
        |group: int, items: Seq<(Seq<char>, ItemView)>|
            if group == 0 {
                slot_renders(self.counter, now, descriptive, items)
            } else if group == 1 {
                slot_renders(self.gauge, now, descriptive, items)
            } else if group == 2 {
                slot_renders(self.meter, now, descriptive, items)
            } else if group == 3 {
                slot_renders(self.histogram, now, descriptive, items)
            } else if group == 4 {
                rendered_in_order(
                    self.panels.len() as int,
                    panel_part(self.panels@, now, descriptive),
                    items,
                )
            } else if group == 5 {
                rendered_in_order(
                    self.snapshooters.len() as int,
                    snapshooter_part(self.snapshooters@, now, descriptive),
                    items,
                )
            } else {
                rendered_in_order(
                    self.handlers.len() as int,
                    handler_part(self.handlers@, now, descriptive),
                    items,
                )
            }
    }

    /// Whether `items` is what the panel may write below its name at `now`.
    ///
    /// An inactive panel writes its head and nothing else. An active one
    /// writes its head and then lets its parts write, group by group.
    pub open spec fn renders_values(
        &self,
        now: Timestamp,
        descriptive: bool,
        items: Seq<(Seq<char>, ItemView)>,
    ) -> bool
        decreases self, 1int,
    {
        let head = self.head(now, descriptive);
        if self.is_inactive_at(now) {
            items == head
        } else {
            &&& head.is_prefix_of(items)
            &&& rendered_in_order(7, self.group_part(now, descriptive), items.skip(head.len() as int))
        }
    }
}

impl<L> Descriptive for Panel<L> {
    open spec fn title_text(&self) -> Option<Seq<char>> {
        match self.title {
            Some(title) => Some(title@),
            None => None,
        }
    }

    open spec fn description_text(&self) -> Option<Seq<char>> {
        match self.description {
            Some(description) => Some(description@),
            None => None,
        }
    }

    fn title(&self) -> (title: Option<&str>) {
        match &self.title {
            Some(title) => Some(title.as_str()),
            None => None,
        }
    }

    fn description(&self) -> (description: Option<&str>) {
        match &self.description {
            Some(description) => Some(description.as_str()),
            None => None,
        }
    }
}

impl<L: Eq + Send + 'static> PutsSnapshot for Panel<L> {
    /// A panel with a name writes one entry: a nested snapshot under the
    /// name. A panel without a name writes its values where it stands.
    open spec fn renders(&self, now: Timestamp, descriptive: bool, items: Seq<(Seq<char>, ItemView)>) -> bool
        decreases self, 2int,
    {
        match self.name {
            Some(name) => {
                &&& items.len() == 1
                &&& items[0].0 == name@
                &&& items[0].1 matches ItemView::Snapshot(inner)
                &&& self.renders_values(now, descriptive, inner)
            },
            None => self.renders_values(now, descriptive, items),
        }
    }

    fn put_snapshot(&self, into: &mut Snapshot, now: Timestamp, descriptive: bool)
        decreases *self, 2int,
    {
        match &self.name {
            Some(name) => {
                let ghost before = into@;
                let mut new_level = Snapshot::new();
                self.put_values_into_snapshot(&mut new_level, now, descriptive);
                proof {
                    assert(new_level@.skip(0) == new_level@);
                }
                into.push(name.clone(), ItemKind::Snapshot(new_level));
                proof {
                    let written = into@.skip(before.len() as int);
                    assert(written.len() == 1);
                    assert(written[0] == into@[before.len() as int]);
                }
            },
            None => {
                self.put_values_into_snapshot(into, now, descriptive);
            },
        }
    }
}

impl<L: Eq + Send + 'static> HandlesObservations<L> for Panel<L> {
    /// A panel reports 0 for an observation whose label its filter rejects.
    open spec fn reports(&self, observation: &Observation<L>, now: Timestamp, n: usize) -> bool {
        L::obeys_eq_spec() && !self.label_filter.accepts_spec(&observation.label_of()) ==> n == 0
    }

    /// Hands the observation on if the filter accepts its label, takes
    /// `now` as the time of the last update then, and reports how many
    /// instruments were updated below this panel.
    fn handle_observation(&mut self, observation: &Observation<L>, now: Timestamp) -> (n: usize)
        ensures
            final(self).handled@ == old(self).handled@.push((*observation, n)),
            L::obeys_eq_spec() ==> old(self).dispatched(observation, now, final(self)),
            L::obeys_eq_spec() ==> n == if old(self).label_filter.accepts_spec(&observation.label_of()) {
                saturated(final(self).reported_by_parts())
            } else {
                0
            },
        decreases *old(self),
    {
        if !self.label_filter.accepts(observation.label()) {
            proof {
                self.handled@ = self.handled@.push((*observation, 0usize));
            }
            return 0;
        }
        self.last_update = now;
        let mut sum: usize = 0;
        let k = dispatch_to_slot(&mut self.counter, observation, now, Ghost(Part::Counter), &mut self.served);
        sum = sum.saturating_add(k);
        let k = dispatch_to_slot(&mut self.gauge, observation, now, Ghost(Part::Gauge), &mut self.served);
        sum = sum.saturating_add(k);
        let k = dispatch_to_slot(&mut self.meter, observation, now, Ghost(Part::Meter), &mut self.served);
        sum = sum.saturating_add(k);
        let k = dispatch_to_slot(&mut self.histogram, observation, now, Ghost(Part::Histogram), &mut self.served);
        sum = sum.saturating_add(k);
        let k = dispatch_to_panels(&mut self.panels, observation, now, &mut self.served);
        sum = sum.saturating_add(k);
        let k = dispatch_to_handlers(&mut self.handlers, observation, now, &mut self.served);
        sum = sum.saturating_add(k);
        proof {
            lemma_reported_nonnegative(slot_records(self.counter));
            lemma_reported_nonnegative(slot_records(self.gauge));
            lemma_reported_nonnegative(slot_records(self.meter));
            lemma_reported_nonnegative(slot_records(self.histogram));
            lemma_reported_nonnegative(panel_records(self.panels@));
            lemma_reported_nonnegative(handler_records(self.handlers@));
            assert(self.handled@ == old(self).handled@);
            self.handled@ = self.handled@.push((*observation, sum));
            assert(self.handled@.drop_last() =~= old(self).handled@);
        }
        sum
    }
}

/// An observation whose label the filter rejects goes no further than the
/// panel: the panel notes it with a count of 0, and the four places, the
/// child panels, the handlers and everything else are as they were.
pub proof fn lemma_rejected_observation_stops_at_the_panel<L: Eq + Send + 'static>(
    before: Panel<L>,
    observation: Observation<L>,
    now: Timestamp,
    after: Panel<L>,
)
    requires
        before.dispatched(&observation, now, &after),
        !before.label_filter.accepts_spec(&observation.label_of()),
    ensures
        after.handled@ == before.handled@.push((observation, 0usize)),
        after.counter == before.counter,
        after.gauge == before.gauge,
        after.meter == before.meter,
        after.histogram == before.histogram,
        after.panels == before.panels,
        after.handlers == before.handlers,
        after.snapshooters == before.snapshooters,
        after.last_update == before.last_update,
        after.served == before.served,
{
}

/// An observation whose label the filter accepts is handed exactly once to
/// each of the four places that is filled, to each child panel and to each
/// handler; each child panel deals with it by its own filter; and the count
/// that the panel notes is the sum of what all of them reported, as far as
/// `usize` holds it.
pub proof fn lemma_accepted_observation_reaches_every_part<L: Eq + Send + 'static>(
    before: Panel<L>,
    observation: Observation<L>,
    now: Timestamp,
    after: Panel<L>,
)
    requires
        before.dispatched(&observation, now, &after),
        before.label_filter.accepts_spec(&observation.label_of()),
    ensures
        after.last_update == now,
        after.served@ == before.served@ + before.order(),
        before.counter is Some ==> after.counter is Some && took(
            before.counter->0.handled(),
            after.counter->0.handled(),
            observation,
        ),
        before.gauge is Some ==> after.gauge is Some && took(
            before.gauge->0.handled(),
            after.gauge->0.handled(),
            observation,
        ),
        before.meter is Some ==> after.meter is Some && took(
            before.meter->0.handled(),
            after.meter->0.handled(),
            observation,
        ),
        before.histogram is Some ==> after.histogram is Some && took(
            before.histogram->0.handled(),
            after.histogram->0.handled(),
            observation,
        ),
        after.panels.len() == before.panels.len(),
        forall|i: int|
            0 <= i < before.panels.len() ==> (#[trigger] before.panels@[i]).dispatched(
                &observation,
                now,
                &after.panels@[i],
            ),
        after.handlers.len() == before.handlers.len(),
        forall|i: int|
            0 <= i < before.handlers.len() ==> took(
                (#[trigger] before.handlers@[i]).handled(),
                after.handlers@[i].handled(),
                observation,
            ),
        after.handled@.last().0 == observation,
        after.handled@.last().1 == saturated(after.reported_by_parts()),
{
    if before.counter is Some {
        assert(took(slot_records(before.counter)[0], slot_records(after.counter)[0], observation));
    }
    if before.gauge is Some {
        assert(took(slot_records(before.gauge)[0], slot_records(after.gauge)[0], observation));
    }
    if before.meter is Some {
        assert(took(slot_records(before.meter)[0], slot_records(after.meter)[0], observation));
    }
    if before.histogram is Some {
        assert(took(slot_records(before.histogram)[0], slot_records(after.histogram)[0], observation));
    }
    assert forall|i: int| 0 <= i < before.handlers.len() implies took(
        (#[trigger] before.handlers@[i]).handled(),
        after.handlers@[i].handled(),
        observation,
    ) by {
        assert(took(handler_records(before.handlers@)[i], handler_records(after.handlers@)[i], observation));
    }
}

/// A panel that has been idle for longer than its limit shows its liveness
/// flags, after title and description in a descriptive snapshot, and none of
/// its values.
pub proof fn lemma_inactive_panel_shows_only_flags<L: Eq + Send + 'static>(
    panel: Panel<L>,
    now: Timestamp,
    descriptive: bool,
    items: Seq<(Seq<char>, ItemView)>,
)
    requires
        panel.is_inactive_at(now),
        panel.renders_values(now, descriptive, items),
    ensures
        items == descriptives(panel.title_text(), panel.description_text(), descriptive)
            + seq![("_inactive"@, ItemView::Boolean(true)), ("_active"@, ItemView::Boolean(false))],
{
}

/// A panel that has not been idle for longer than its limit, or that has no
/// limit, shows itself as active and then what its parts write.
pub proof fn lemma_active_panel_shows_flags_and_values<L: Eq + Send + 'static>(
    panel: Panel<L>,
    now: Timestamp,
    descriptive: bool,
    items: Seq<(Seq<char>, ItemView)>,
)
    requires
        !panel.is_inactive_at(now),
        panel.renders_values(now, descriptive, items),
    ensures
        panel.head(now, descriptive) == descriptives(
            panel.title_text(),
            panel.description_text(),
            descriptive,
        ) + seq![("_inactive"@, ItemView::Boolean(false)), ("_active"@, ItemView::Boolean(true))],
        panel.head(now, descriptive).is_prefix_of(items),
        rendered_in_order(
            7,
            panel.group_part(now, descriptive),
            items.skip(panel.head(now, descriptive).len() as int),
        ),
{
}

/// Fresh activity makes a panel active again: after an observation that the
/// filter accepts, handled at `now`, the panel is not inactive at any time
/// that lies no further behind `now` than its limit, and shows its values
/// then.
pub proof fn lemma_accepted_observation_revives_the_panel<L: Eq + Send + 'static>(
    before: Panel<L>,
    observation: Observation<L>,
    now: Timestamp,
    after: Panel<L>,
    later: Timestamp,
)
    requires
        before.dispatched(&observation, now, &after),
        before.label_filter.accepts_spec(&observation.label_of()),
        before.max_inactivity_duration matches Some(limit) ==> later.since(now) <= limit.nanos,
    ensures
        after.last_update == now,
        !after.is_inactive_at(later),
        after.head(later, false) == seq![
            ("_inactive"@, ItemView::Boolean(false)),
            ("_active"@, ItemView::Boolean(true)),
        ],
{
    assert(descriptives(after.title_text(), after.description_text(), false) =~= Seq::empty());
    assert(after.head(later, false) =~= liveness(after.last_update, after.max_inactivity_duration, later));
}

} // verus!

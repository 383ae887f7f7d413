//! The cockpit: panels grouped under a name, by which panels can be added
//! to it later.
use vstd::prelude::*;
use vstd::std_specs::cmp::PartialEqSpec;

use crate::capability::{
    all_took, lemma_reported_nonnegative, reported, saturated, text_of, took, Descriptive, HandlesObservations,
    Part, PutsSnapshot,
};
use crate::instruments::panel::{
    dispatch_to_panels, panel_part, panel_records, panels_in_order, render_panels, Panel,
};
use crate::observation::Observation;
use crate::render::{lemma_none_rendered, lemma_one_more_rendered, lemma_prefix_of_prefix, rendered_in_order};
use crate::snapshot::{ItemKind, ItemView, Snapshot};
use crate::time::Timestamp;
use crate::util::{descriptives, put_default_descriptives};

verus! {

/// A group of panels. Every observation is handed to every panel of the
/// group; each panel decides by its own filter what to do with it.
#[verifier::reject_recursive_types(L)]
pub struct Cockpit<L> {
    pub name: Option<String>,
    pub title: Option<String>,
    pub description: Option<String>,
    pub panels: Vec<Panel<L>>,
    /// The record of what the cockpit handled: the observations, oldest
    /// first, each with the count that the cockpit reported.
    pub handled: Ghost<Seq<(Observation<L>, usize)>>,
    /// The journal of the cockpit: which panel was handed an observation,
    /// in the order in which it happened.
    pub served: Ghost<Seq<Part>>,
}

/// The first `count` cockpits of a list, first to last.
pub open spec fn cockpits_in_order(count: int) -> Seq<Part> {
    Seq::new(count as nat, |i: int| Part::Cockpit(i))
}

/// The records of a list of cockpits, in the order of the list.
pub open spec fn cockpit_records<L>(cockpits: Seq<Cockpit<L>>) -> Seq<Seq<(Observation<L>, usize)>> {
    Seq::new(cockpits.len(), |i: int| cockpits[i].handled@)
}

impl<L> Cockpit<L> {
    /// The text of the name, if the cockpit has one.
    pub open spec fn name_text(&self) -> Option<Seq<char>> {
        match self.name {
            Some(name) => Some(name@),
            None => None,
        }
    }

    /// `after` is `self` with `panel` behind the other panels.
    pub open spec fn panel_added(&self, panel: Panel<L>, after: &Cockpit<L>) -> bool {
        &&& *after == Cockpit { panels: after.panels, ..*self }
        &&& after.panels@ =~= self.panels@.push(panel)
    }
}

impl<L: Eq + Send + 'static> Cockpit<L> {
    /// Whether `after` is what handling `observation` at `now` makes of
    /// `self`: every panel was handed the observation once, first to last
    /// as the journal tells, and, where the labels can be compared, has
    /// dealt with it by its own filter; and the
    /// cockpit notes the observation with the sum of what the panels
    /// reported, as far as `usize` holds it.
    pub open spec fn dispatched(&self, observation: &Observation<L>, now: Timestamp, after: &Cockpit<L>) -> bool {
        &&& after.name == self.name
        &&& after.title == self.title
        &&& after.description == self.description
        &&& took(self.handled@, after.handled@, *observation)
        &&& after.served@ =~= self.served@ + panels_in_order(self.panels.len() as int)
        &&& all_took(panel_records(self.panels@), panel_records(after.panels@), *observation)
        &&& L::obeys_eq_spec() ==> forall|i: int|
            0 <= i < self.panels.len() ==> (#[trigger] self.panels@[i]).dispatched(
                observation,
                now,
                &after.panels@[i],
            )
        &&& after.handled@.last().1 == saturated(reported(panel_records(after.panels@)))
    }

    /// Whether `items` is what the cockpit may write below its name: title
    /// and description in a descriptive snapshot, then what the panels
    /// write, first to last.
    pub open spec fn renders_values(
        &self,
        now: Timestamp,
        descriptive: bool,
        items: Seq<(Seq<char>, ItemView)>,
    ) -> bool {
        let head = descriptives(self.title_text(), self.description_text(), descriptive);
        &&& head.is_prefix_of(items)
        &&& rendered_in_order(
            self.panels.len() as int,
            panel_part(self.panels@, now, descriptive),
            items.skip(head.len() as int),
        )
    }

    /// A cockpit with a name and without panels.
    pub fn new(name: String) -> (cockpit: Cockpit<L>)
        ensures
            cockpit.name_text() == Some(name@),
            cockpit.title is None,
            cockpit.description is None,
            cockpit.panels@.len() == 0,
            cockpit.handled@.len() == 0,
            cockpit.served@.len() == 0,
    {
        Cockpit {
            name: Some(name),
            title: None,
            description: None,
            panels: Vec::new(),
            handled: Ghost(Seq::empty()),
            served: Ghost(Seq::empty()),
        }
    }

    /// A cockpit without a name and without panels.
    pub fn without_name() -> (cockpit: Cockpit<L>)
        ensures
            cockpit.name is None,
            cockpit.title is None,
            cockpit.description is None,
            cockpit.panels@.len() == 0,
            cockpit.handled@.len() == 0,
            cockpit.served@.len() == 0,
    {
        Cockpit {
            name: None,
            title: None,
            description: None,
            panels: Vec::new(),
            handled: Ghost(Seq::empty()),
            served: Ghost(Seq::empty()),
        }
    }

    /// The name of the cockpit.
    pub fn get_name(&self) -> (name: Option<&str>)
        ensures
            text_of(name) == self.name_text(),
    {
        match &self.name {
            Some(name) => Some(name.as_str()),
            None => None,
        }
    }

    /// Gives the cockpit a title, which descriptive snapshots show.
    pub fn set_title(&mut self, title: String)
        ensures
            *final(self) == (Cockpit { title: Some(title), ..*old(self) }),
    {
        self.title = Some(title)
    }

    /// Gives the cockpit a description, which descriptive snapshots show.
    pub fn set_description(&mut self, description: String)
        ensures
            *final(self) == (Cockpit { description: Some(description), ..*old(self) }),
    {
        self.description = Some(description)
    }

    /// Adds a panel behind the others.
    pub fn add_panel(&mut self, panel: Panel<L>)
        ensures
            old(self).panel_added(panel, final(self)),
    {
        self.panels.push(panel);
    }

    /// The cockpit with `panel` added.
    pub fn panel(self, panel: Panel<L>) -> (cockpit: Cockpit<L>)
        ensures
            self.panel_added(panel, &cockpit),
    {
        let mut cockpit = self;
        cockpit.add_panel(panel);
        cockpit
    }

    /// Writes what the cockpit shows below its name.
    pub fn put_values_into_snapshot(&self, into: &mut Snapshot, now: Timestamp, descriptive: bool)
        ensures
            old(into)@.is_prefix_of(final(into)@),
            self.renders_values(now, descriptive, final(into)@.skip(old(into)@.len() as int)),
    {
        let ghost first = into@.len() as int;
        put_default_descriptives(self, into, descriptive);
        let ghost headed = into@;
        render_panels(&self.panels, into, now, descriptive);
        proof {
            lemma_prefix_of_prefix(old(into)@, headed, into@);
            let written = into@.skip(first);
            let head = descriptives(self.title_text(), self.description_text(), descriptive);
            assert(headed.skip(first) == head);
            assert(head.is_prefix_of(written));
            assert(written.skip(head.len() as int) == into@.skip(headed.len() as int));
        }
    }
}

impl<L> Descriptive for Cockpit<L> {
    open spec fn title_text(&self) -> Option<Seq<char>> {
        match self.title {
            Some(title) => Some(title@),
            None => None,
        }
    }

    open spec fn description_text(&self) -> Option<Seq<char>> {
        match self.description {
            Some(description) => Some(description@),
            None => None,
        }
    }

    fn title(&self) -> (title: Option<&str>) {
        match &self.title {
            Some(title) => Some(title.as_str()),
            None => None,
        }
    }

    fn description(&self) -> (description: Option<&str>) {
        match &self.description {
            Some(description) => Some(description.as_str()),
            None => None,
        }
    }
}

impl<L: Eq + Send + 'static> PutsSnapshot for Cockpit<L> {
    /// A cockpit with a name writes one entry: a nested snapshot under the
    /// name. A cockpit without a name writes its values where it stands.
    open spec fn renders(&self, now: Timestamp, descriptive: bool, items: Seq<(Seq<char>, ItemView)>) -> bool {
        match self.name {
            Some(name) => {
                &&& items.len() == 1
                &&& items[0].0 == name@
                &&& items[0].1 matches ItemView::Snapshot(inner)
                &&& self.renders_values(now, descriptive, inner)
            },
            None => self.renders_values(now, descriptive, items),
        }
    }

    fn put_snapshot(&self, into: &mut Snapshot, now: Timestamp, descriptive: bool) {
        match &self.name {
            Some(name) => {
                let ghost before = into@;
                let mut new_level = Snapshot::new();
                self.put_values_into_snapshot(&mut new_level, now, descriptive);
                proof {
                    assert(new_level@.skip(0) == new_level@);
                }
                into.push(name.clone(), ItemKind::Snapshot(new_level));
                proof {
                    let written = into@.skip(before.len() as int);
                    assert(written.len() == 1);
                    assert(written[0] == into@[before.len() as int]);
                }
            },
            None => {
                self.put_values_into_snapshot(into, now, descriptive);
            },
        }
    }
}

impl<L: Eq + Send + 'static> HandlesObservations<L> for Cockpit<L> {
    /// A cockpit reports what its panels report, added up: any count.
    open spec fn reports(&self, observation: &Observation<L>, now: Timestamp, n: usize) -> bool {
        true
    }

    /// Hands the observation to every panel and reports how many
    /// instruments were updated.
    fn handle_observation(&mut self, observation: &Observation<L>, now: Timestamp) -> (n: usize)
        ensures
            final(self).handled@ == old(self).handled@.push((*observation, n)),
            old(self).dispatched(observation, now, final(self)),
            n == saturated(reported(panel_records(final(self).panels@))),
    {
        let n = dispatch_to_panels(&mut self.panels, observation, now, &mut self.served);
        proof {
            assert(self.handled@ == old(self).handled@);
            self.handled@ = self.handled@.push((*observation, n));
            assert(self.handled@.drop_last() =~= old(self).handled@);
        }
        n
    }
}

/// What may be written by the cockpit at place `i` of `cockpits`.
pub open spec fn cockpit_part<L: Eq + Send + 'static>(
    cockpits: Seq<Cockpit<L>>,
    now: Timestamp,
    descriptive: bool,
) -> spec_fn(int, Seq<(Seq<char>, ItemView)>) -> bool {
    |i: int, items: Seq<(Seq<char>, ItemView)>|
        0 <= i < cockpits.len() && cockpits[i].renders(now, descriptive, items)
}

/// Hands `observation` to every cockpit, first to last, and adds up what
/// they report. `served` is the journal of the node that owns the cockpits:
/// each cockpit is noted in it when its turn comes.
pub fn dispatch_to_cockpits<L: Eq + Send + 'static>(
    cockpits: &mut Vec<Cockpit<L>>,
    observation: &Observation<L>,
    now: Timestamp,
    served: &mut Ghost<Seq<Part>>,
) -> (n: usize)
    ensures
        final(served)@ == old(served)@ + cockpits_in_order(old(cockpits).len() as int),
        final(cockpits).len() == old(cockpits).len(),
        all_took(cockpit_records(old(cockpits)@), cockpit_records(final(cockpits)@), *observation),
        forall|i: int|
            0 <= i < old(cockpits).len() ==> (#[trigger] old(cockpits)@[i]).dispatched(
                observation,
                now,
                &final(cockpits)@[i],
            ),
        n == saturated(reported(cockpit_records(final(cockpits)@))),
{
    let mut sum: usize = 0;
    let mut i: usize = 0;
    while i < cockpits.len()
        invariant
            i <= cockpits.len(),
            cockpits.len() == old(cockpits).len(),
            forall|j: int|
                0 <= j < i ==> took(
                    #[trigger] cockpit_records(old(cockpits)@)[j],
                    cockpit_records(cockpits@)[j],
                    *observation,
                ),
            forall|j: int|
                0 <= j < i ==> (#[trigger] old(cockpits)@[j]).dispatched(observation, now, &cockpits@[j]),
            forall|j: int| i <= j < cockpits.len() ==> cockpits@[j] == old(cockpits)@[j],
            sum == saturated(reported(cockpit_records(cockpits@).take(i as int))),
            served@ == old(served)@ + cockpits_in_order(i as int),
        decreases cockpits.len() - i,
    {
        let ghost before = cockpits@;
        let k = cockpits[i].handle_observation(observation, now);
        proof {
            let records = cockpit_records(cockpits@);
            assert(records.take(i as int) == cockpit_records(before).take(i as int));
            assert(records.take(i as int + 1).drop_last() == records.take(i as int));
            assert(records[i as int].drop_last() == cockpit_records(before)[i as int]);
            lemma_reported_nonnegative(records.take(i as int));
            assert(cockpits_in_order(i as int).push(Part::Cockpit(i as int)) == cockpits_in_order(
                i as int + 1,
            ));
            served@ = served@.push(Part::Cockpit(i as int));
        }
        sum = sum.saturating_add(k);
        i = i + 1;
    }
    proof {
        let records = cockpit_records(cockpits@);
        assert(records.take(i as int) == records);
    }
    sum
}

/// Lets every cockpit write into the snapshot, first to last.
pub fn render_cockpits<L: Eq + Send + 'static>(
    cockpits: &Vec<Cockpit<L>>,
    into: &mut Snapshot,
    now: Timestamp,
    descriptive: bool,
)
    ensures
        old(into)@.is_prefix_of(final(into)@),
        rendered_in_order(
            cockpits.len() as int,
            cockpit_part(cockpits@, now, descriptive),
            final(into)@.skip(old(into)@.len() as int),
        ),
{
    let ghost part = cockpit_part(cockpits@, now, descriptive);
    let ghost start = into@.len() as int;
    proof {
        lemma_none_rendered(part);
        assert(into@.skip(start) == Seq::<(Seq<char>, ItemView)>::empty());
    }
    let mut i: usize = 0;
    while i < cockpits.len()
        invariant
            i <= cockpits.len(),
            start == old(into)@.len(),
            part == cockpit_part(cockpits@, now, descriptive),
            old(into)@.is_prefix_of(into@),
            rendered_in_order(i as int, part, into@.skip(start)),
        decreases cockpits.len() - i,
    {
        let ghost before = into@;
        cockpits[i].put_snapshot(into, now, descriptive);
        proof {
            assert(into@.skip(start).skip(before.skip(start).len() as int) == into@.skip(
                before.len() as int,
            ));
            lemma_one_more_rendered(i as int, part, before.skip(start), into@.skip(start));
        }
        i = i + 1;
    }
}

} // verus!

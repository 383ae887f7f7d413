//! Processors grouped under one name.
use vstd::prelude::*;

use super::{
    total, AggregatesProcessors, Batch, BoxedProcessor, ProcessesTelemetryMessages, ProcessingOutcome,
    ProcessingStrategy,
};
use crate::capability::{text_of, BoxedSnapshooter, Descriptive, PutsSnapshot};
use crate::render::{
    lemma_none_rendered, lemma_one_more_rendered, lemma_prefix_of_prefix, render_snapshooters, rendered_in_order,
    snapshooter_part,
};
use crate::snapshot::{ItemKind, ItemView, Snapshot};
use crate::time::{TimeSpan, Timestamp};
use crate::util::{descriptives, is_inactive, liveness, put_default_descriptives, put_liveness};

verus! {

/// A group of processors under one name. A round of the group is a round
/// of each of its processors, with the same limit and the same strategy.
pub struct ProcessorMount {
    pub name: Option<String>,
    pub title: Option<String>,
    pub description: Option<String>,
    pub processors: Vec<BoxedProcessor>,
    pub snapshooters: Vec<BoxedSnapshooter>,
    pub last_activity_at: Timestamp,
    pub max_inactivity_duration: Option<TimeSpan>,
}

/// `after` is `before` with one more line, and that line is for a round
/// that was asked for with `now`, `max` and `strategy`.
pub open spec fn asked(
    before: Seq<Batch>,
    after: Seq<Batch>,
    now: Timestamp,
    max: usize,
    strategy: ProcessingStrategy,
) -> bool {
    &&& after.len() == before.len() + 1
    &&& after.drop_last() =~= before
    &&& after.last().now == now
    &&& after.last().max == max
    &&& after.last().strategy == strategy
}

/// What each of the processors made of its last round, in the order of the
/// processors.
pub open spec fn last_outcomes(processors: Seq<BoxedProcessor>) -> Seq<ProcessingOutcome> {
    Seq::new(processors.len(), |i: int| processors[i].batches().last().outcome)
}

/// What may be written by the processor at place `i` of `processors`.
pub open spec fn processor_part(
    processors: Seq<BoxedProcessor>,
    now: Timestamp,
    descriptive: bool,
) -> spec_fn(int, Seq<(Seq<char>, ItemView)>) -> bool {
    |i: int, items: Seq<(Seq<char>, ItemView)>|
        0 <= i < processors.len() && processors[i].renders(now, descriptive, items)
}

/// Lets every processor write into the snapshot, first to last.
pub fn render_processors(
    processors: &Vec<BoxedProcessor>,
    into: &mut Snapshot,
    now: Timestamp,
    descriptive: bool,
)
    ensures
        old(into)@.is_prefix_of(final(into)@),
        rendered_in_order(
            processors.len() as int,
            processor_part(processors@, now, descriptive),
            final(into)@.skip(old(into)@.len() as int),
        ),
{
    let ghost part = processor_part(processors@, now, descriptive);
    let ghost start = into@.len() as int;
    proof {
        lemma_none_rendered(part);
        assert(into@.skip(start) == Seq::<(Seq<char>, ItemView)>::empty());
    }
    let mut i: usize = 0;
    while i < processors.len()
        invariant
            i <= processors.len(),
            start == old(into)@.len(),
            part == processor_part(processors@, now, descriptive),
            old(into)@.is_prefix_of(into@),
            rendered_in_order(i as int, part, into@.skip(start)),
        decreases processors.len() - i,
    {
        let ghost before = into@;
        processors[i].put_snapshot(into, now, descriptive);
        proof {
            assert(into@.skip(start).skip(before.skip(start).len() as int) == into@.skip(
                before.len() as int,
            ));
            lemma_one_more_rendered(i as int, part, before.skip(start), into@.skip(start));
        }
        i = i + 1;
    }
}

impl ProcessorMount {
    /// The text of the name, if the group has one.
    pub open spec fn name_text(&self) -> Option<Seq<char>> {
        match self.name {
            Some(name) => Some(name@),
            None => None,
        }
    }

    /// A group as the constructors make it: created at `now` with the given
    /// name and with nothing else in it.
    pub open spec fn is_fresh(&self, name: Option<Seq<char>>, now: Timestamp) -> bool {
        &&& self.name_text() == name
        &&& self.title is None
        &&& self.description is None
        &&& self.processors@.len() == 0
        &&& self.snapshooters@.len() == 0
        &&& self.last_activity_at == now
        &&& self.max_inactivity_duration is None
    }

    /// `after` is `self` with `processor` behind the other processors.
    pub open spec fn processor_added(&self, processor: BoxedProcessor, after: &ProcessorMount) -> bool {
        &&& *after == ProcessorMount { processors: after.processors, ..*self }
        &&& after.processors@ =~= self.processors@.push(processor)
    }

    /// `after` is `self` with `snapshooter` behind the other contributors.
    pub open spec fn snapshooter_added(&self, snapshooter: BoxedSnapshooter, after: &ProcessorMount) -> bool {
        &&& *after == ProcessorMount { snapshooters: after.snapshooters, ..*self }
        &&& after.snapshooters@ =~= self.snapshooters@.push(snapshooter)
    }

    /// Whether `after` and `outcome` are what a round makes of the group:
    /// every processor was asked once for a round with the same `now`,
    /// `max` and `strategy`, and what its record says it came to is what it
    /// did come to; `outcome` is what they made of it, taken together; and the group notes `now` as the time of its last activity
    /// if anything was processed or dropped.
    pub open spec fn ran(
        &self,
        now: Timestamp,
        max: usize,
        strategy: ProcessingStrategy,
        after: &ProcessorMount,
        outcome: ProcessingOutcome,
    ) -> bool {
        &&& *after == (ProcessorMount {
            processors: after.processors,
            last_activity_at: if outcome.happened() {
                now
            } else {
                self.last_activity_at
            },
            ..*self
        })
        &&& after.processors.len() == self.processors.len()
        &&& forall|i: int|
            0 <= i < self.processors.len() ==> asked(
                (#[trigger] self.processors@[i]).batches(),
                after.processors@[i].batches(),
                now,
                max,
                strategy,
            ) && self.processors@[i].inner.comes_to(
                now,
                max,
                strategy,
                after.processors@[i].batches().last().outcome,
            )
        &&& outcome == total(last_outcomes(after.processors@))
    }

    /// Whether the group has been idle at `now` for longer than its limit.
    pub open spec fn is_inactive_at(&self, now: Timestamp) -> bool {
        is_inactive(self.last_activity_at, self.max_inactivity_duration, now)
    }

    /// What the group writes before its parts: title and description in a
    /// descriptive snapshot, then the liveness flags.
    pub open spec fn head(&self, now: Timestamp, descriptive: bool) -> Seq<(Seq<char>, ItemView)> {
        descriptives(self.title_text(), self.description_text(), descriptive) + liveness(
            self.last_activity_at,
            self.max_inactivity_duration,
            now,
        )
    }

    /// What the two groups of parts may write: the processors and the
    /// contributors.
    pub open spec fn group_part(&self, now: Timestamp, descriptive: bool) -> spec_fn(
        int,
        Seq<(Seq<char>, ItemView)>,
    ) -> bool {
        |group: int, items: Seq<(Seq<char>, ItemView)>|
            if group == 0 {
                rendered_in_order(
                    self.processors.len() as int,
                    processor_part(self.processors@, now, descriptive),
                    items,
                )
            } else {
                rendered_in_order(
                    self.snapshooters.len() as int,
                    snapshooter_part(self.snapshooters@, now, descriptive),
                    items,
                )
            }
    }

    /// Whether `items` is what the group may write below its name at `now`.
    /// An inactive group writes its head and nothing else.
    pub open spec fn renders_values(
        &self,
        now: Timestamp,
        descriptive: bool,
        items: Seq<(Seq<char>, ItemView)>,
    ) -> bool {
        let head = self.head(now, descriptive);
        if self.is_inactive_at(now) {
            items == head
        } else {
            &&& head.is_prefix_of(items)
            &&& rendered_in_order(2, self.group_part(now, descriptive), items.skip(head.len() as int))
        }
    }

    /// A group with a name.
    pub fn new(name: String, now: Timestamp) -> (mount: ProcessorMount)
        ensures
            mount.is_fresh(Some(name@), now),
    {
        let mut mount = ProcessorMount::without_name(now);
        mount.set_name(name);
        mount
    }

    /// A group without a name.
    pub fn without_name(now: Timestamp) -> (mount: ProcessorMount)
        ensures
            mount.is_fresh(None, now),
    {
        ProcessorMount {
            name: None,
            title: None,
            description: None,
            processors: Vec::new(),
            snapshooters: Vec::new(),
            last_activity_at: now,
            max_inactivity_duration: None,
        }
    }

    /// The name of the group.
    pub fn name(&self) -> (name: Option<&str>)
        ensures
            text_of(name) == self.name_text(),
    {
        match &self.name {
            Some(name) => Some(name.as_str()),
            None => None,
        }
    }

    /// Gives the group a name.
    pub fn set_name(&mut self, name: String)
        ensures
            *final(self) == (ProcessorMount { name: Some(name), ..*old(self) }),
    {
        self.name = Some(name)
    }

    /// Sets how long the group may be idle before it stops showing what is
    /// below it.
    pub fn set_inactivity_limit(&mut self, limit: TimeSpan)
        ensures
            *final(self) == (ProcessorMount { max_inactivity_duration: Some(limit), ..*old(self) }),
    {
        self.max_inactivity_duration = Some(limit);
    }

    /// The processors of the group.
    pub fn processors(&self) -> (processors: &Vec<BoxedProcessor>)
        ensures
            *processors == self.processors,
    {
        &self.processors
    }

    /// The contributors of the group.
    pub fn snapshooters(&self) -> (snapshooters: &Vec<BoxedSnapshooter>)
        ensures
            *snapshooters == self.snapshooters,
    {
        &self.snapshooters
    }

    /// Writes what the group shows below its name: the head and, unless the
    /// group is inactive, what its processors and contributors write.
    pub fn put_values_into_snapshot(&self, into: &mut Snapshot, now: Timestamp, descriptive: bool)
        ensures
            old(into)@.is_prefix_of(final(into)@),
            self.renders_values(now, descriptive, final(into)@.skip(old(into)@.len() as int)),
    {
        let ghost first = into@.len() as int;
        let ghost part = self.group_part(now, descriptive);
        put_default_descriptives(self, into, descriptive);
        let inactive = put_liveness(into, self.last_activity_at, self.max_inactivity_duration, now);
        let ghost start = into@.len() as int;
        proof {
            assert(into@.skip(first) == self.head(now, descriptive));
            assert(old(into)@.is_prefix_of(into@));
        }
        if inactive {
            return ;
        }
        let ghost headed = into@;
        proof {
            lemma_none_rendered(part);
            assert(into@.skip(start) == Seq::<(Seq<char>, ItemView)>::empty());
        }
        let ghost before = into@;
        render_processors(&self.processors, into, now, descriptive);
        proof {
            assert(into@.skip(start).skip(before.skip(start).len() as int) == into@.skip(
                before.len() as int,
            ));
            lemma_prefix_of_prefix(old(into)@, before, into@);
            lemma_one_more_rendered(0, part, before.skip(start), into@.skip(start));
        }
        let ghost before = into@;
        render_snapshooters(&self.snapshooters, into, now, descriptive);
        proof {
            assert(into@.skip(start).skip(before.skip(start).len() as int) == into@.skip(
                before.len() as int,
            ));
            lemma_prefix_of_prefix(old(into)@, before, into@);
            lemma_one_more_rendered(1, part, before.skip(start), into@.skip(start));
            let written = into@.skip(first);
            let head = self.head(now, descriptive);
            assert(headed.skip(first) == head);
            assert(head.is_prefix_of(written));
            assert(written.skip(head.len() as int) == into@.skip(start));
        }
    }
}

impl AggregatesProcessors for ProcessorMount {
    fn add_processor(&mut self, processor: BoxedProcessor)
        ensures
            old(self).processor_added(processor, final(self)),
    {
        self.processors.push(processor);
    }

    fn add_snapshooter(&mut self, snapshooter: BoxedSnapshooter)
        ensures
            old(self).snapshooter_added(snapshooter, final(self)),
    {
        self.snapshooters.push(snapshooter);
    }
}

impl Descriptive for ProcessorMount {
    open spec fn title_text(&self) -> Option<Seq<char>> {
        match self.title {
            Some(title) => Some(title@),
            None => None,
        }
    }

    open spec fn description_text(&self) -> Option<Seq<char>> {
        match self.description {
            Some(description) => Some(description@),
            None => None,
        }
    }

    fn title(&self) -> (title: Option<&str>) {
        match &self.title {
            Some(title) => Some(title.as_str()),
            None => None,
        }
    }

    fn description(&self) -> (description: Option<&str>) {
        match &self.description {
            Some(description) => Some(description.as_str()),
            None => None,
        }
    }
}

impl PutsSnapshot for ProcessorMount {
    /// A group with a name writes one entry: a nested snapshot under the
    /// name. A group without a name writes its values where it stands.
    open spec fn renders(&self, now: Timestamp, descriptive: bool, items: Seq<(Seq<char>, ItemView)>) -> bool {
        match self.name {
            Some(name) => {
                &&& items.len() == 1
                &&& items[0].0 == name@
                &&& items[0].1 matches ItemView::Snapshot(inner)
                &&& self.renders_values(now, descriptive, inner)
            },
            None => self.renders_values(now, descriptive, items),
        }
    }

    fn put_snapshot(&self, into: &mut Snapshot, now: Timestamp, descriptive: bool) {
        match &self.name {
            Some(name) => {
                let ghost before = into@;
                let mut new_level = Snapshot::new();
                self.put_values_into_snapshot(&mut new_level, now, descriptive);
                proof {
                    assert(new_level@.skip(0) == new_level@);
                }
                into.push(name.clone(), ItemKind::Snapshot(new_level));
                proof {
                    let written = into@.skip(before.len() as int);
                    assert(written.len() == 1);
                    assert(written[0] == into@[before.len() as int]);
                }
            },
            None => {
                self.put_values_into_snapshot(into, now, descriptive);
            },
        }
    }
}

impl ProcessesTelemetryMessages for ProcessorMount {
    /// A round of a group comes to what the rounds of its processors come
    /// to: any outcome.
    open spec fn comes_to(
        &self,
        now: Timestamp,
        max: usize,
        strategy: ProcessingStrategy,
        outcome: ProcessingOutcome,
    ) -> bool {
        true
    }

    /// What it writes as a processor is what it writes as a contributor to
    /// snapshots.
    open spec fn renders(&self, now: Timestamp, descriptive: bool, items: Seq<(Seq<char>, ItemView)>) -> bool {
        PutsSnapshot::renders(self, now, descriptive, items)
    }

    /// Asks every processor of the group for a round and takes together
    /// what they made of it.
    fn process(&mut self, now: Timestamp, max: usize, strategy: ProcessingStrategy) -> (outcome:
        ProcessingOutcome)
        ensures
            old(self).ran(now, max, strategy, final(self), outcome),
    {
        let mut outcome = ProcessingOutcome::default();
        let mut i: usize = 0;
        while i < self.processors.len()
            invariant
                i <= self.processors.len(),
                self.processors.len() == old(self).processors.len(),
                *self == (ProcessorMount { processors: self.processors, ..*old(self) }),
                forall|j: int|
                    0 <= j < i ==> asked(
                        (#[trigger] old(self).processors@[j]).batches(),
                        self.processors@[j].batches(),
                        now,
                        max,
                        strategy,
                    ) && old(self).processors@[j].inner.comes_to(
                        now,
                        max,
                        strategy,
                        self.processors@[j].batches().last().outcome,
                    ),
                forall|j: int| i <= j < self.processors.len() ==> self.processors@[j] == old(self).processors@[j],
                outcome == total(last_outcomes(self.processors@).take(i as int)),
            decreases self.processors.len() - i,
        {
            let ghost before = self.processors@;
            let one = self.processors[i].process(now, max, strategy);
            outcome.combine_with(&one);
            proof {
                let outcomes = last_outcomes(self.processors@);
                assert(outcomes.take(i as int) == last_outcomes(before).take(i as int));
                assert(outcomes.take(i as int + 1).drop_last() == outcomes.take(i as int));
                assert(self.processors@[i as int].batches().drop_last() =~= before[i as int].batches());
            }
            i = i + 1;
        }
        proof {
            let outcomes = last_outcomes(self.processors@);
            assert(outcomes.take(i as int) == outcomes);
        }
        if outcome.something_happened() {
            self.last_activity_at = now;
        }
        outcome
    }

    fn put_snapshot(&self, into: &mut Snapshot, now: Timestamp, descriptive: bool) {
        PutsSnapshot::put_snapshot(self, into, now, descriptive)
    }
}

/// A group that has been idle for longer than its limit shows its liveness
/// flags, after title and description in a descriptive snapshot, and nothing
/// of its processors and contributors.
pub proof fn lemma_inactive_mount_shows_only_flags(
    mount: ProcessorMount,
    now: Timestamp,
    descriptive: bool,
    items: Seq<(Seq<char>, ItemView)>,
)
    requires
        mount.is_inactive_at(now),
        mount.renders_values(now, descriptive, items),
    ensures
        items == descriptives(mount.title_text(), mount.description_text(), descriptive)
            + seq![("_inactive"@, ItemView::Boolean(true)), ("_active"@, ItemView::Boolean(false))],
{
}

/// A round of a group is a round of each of its processors with the same
/// limit and the same strategy, and what it comes to is what they come to,
/// taken together.
pub proof fn lemma_group_asks_every_processor(
    before: ProcessorMount,
    now: Timestamp,
    max: usize,
    strategy: ProcessingStrategy,
    after: ProcessorMount,
    outcome: ProcessingOutcome,
    i: int,
)
    requires
        before.ran(now, max, strategy, &after, outcome),
        0 <= i < before.processors.len(),
    ensures
        after.processors@[i].batches() == before.processors@[i].batches().push(
            Batch { now, max, strategy, outcome: last_outcomes(after.processors@)[i] },
        ),
        outcome == total(last_outcomes(after.processors@)),
{
    let record = after.processors@[i].batches();
    assert(asked(before.processors@[i].batches(), record, now, max, strategy));
    assert(record =~= record.drop_last().push(record.last()));
}

} // verus!

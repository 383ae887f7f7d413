//! Rendering a list of contributors: each writes behind the one before it.
use vstd::prelude::*;

use crate::capability::{BoxedHandler, BoxedSnapshooter};
use crate::snapshot::{ItemView, Snapshot};
use crate::time::Timestamp;

verus! {

/// `cuts` divides `items` into `count` stretches, one behind the other, and
/// stretch `i` is something that part `i` may write.
pub open spec fn cut_up(
    count: int,
    part: spec_fn(int, Seq<(Seq<char>, ItemView)>) -> bool,
    items: Seq<(Seq<char>, ItemView)>,
    cuts: Seq<int>,
) -> bool {
    &&& cuts.len() == count + 1
    &&& cuts[0] == 0
    &&& cuts[count] == items.len()
    &&& forall|i: int| 0 <= i < count ==> 0 <= #[trigger] cuts[i] <= cuts[i + 1] <= items.len()
    &&& forall|i: int| 0 <= i < count ==> part(i, #[trigger] items.subrange(cuts[i], cuts[i + 1]))
}

/// `items` is what `count` parts may write one after the other, first to
/// last.
pub open spec fn rendered_in_order(
    count: int,
    part: spec_fn(int, Seq<(Seq<char>, ItemView)>) -> bool,
    items: Seq<(Seq<char>, ItemView)>,
) -> bool {
    exists|cuts: Seq<int>| #[trigger] cut_up(count, part, items, cuts)
}

/// What was written behind something that was written behind a beginning
/// was written behind that beginning.
pub proof fn lemma_prefix_of_prefix<A>(first: Seq<A>, second: Seq<A>, third: Seq<A>)
    requires
        first.is_prefix_of(second),
        second.is_prefix_of(third),
    ensures
        first.is_prefix_of(third),
{
    assert(first =~= third.subrange(0, first.len() as int)) by {
        assert(first =~= second.subrange(0, first.len() as int));
        assert(second =~= third.subrange(0, second.len() as int));
    }
}

/// No part writes nothing.
pub proof fn lemma_none_rendered(part: spec_fn(int, Seq<(Seq<char>, ItemView)>) -> bool)
    ensures
        rendered_in_order(0, part, Seq::empty()),
{
    assert(cut_up(0, part, Seq::empty(), seq![0int]));
}

/// What `done` parts wrote, with what the next part wrote behind it, is
/// what `done + 1` parts may write.
pub proof fn lemma_one_more_rendered(
    done: int,
    part: spec_fn(int, Seq<(Seq<char>, ItemView)>) -> bool,
    before: Seq<(Seq<char>, ItemView)>,
    after: Seq<(Seq<char>, ItemView)>,
)
    requires
        0 <= done,
        rendered_in_order(done, part, before),
        before.is_prefix_of(after),
        part(done, after.skip(before.len() as int)),
    ensures
        rendered_in_order(done + 1, part, after),
{
    let cuts = choose|cuts: Seq<int>| #[trigger] cut_up(done, part, before, cuts);
    let longer = cuts.push(after.len() as int);
    assert forall|i: int| 0 <= i < done + 1 implies part(
        i,
        #[trigger] after.subrange(longer[i], longer[i + 1]),
    ) by {
        if i < done {
            assert(0 <= cuts[i] <= cuts[i + 1] <= before.len());
            assert(after.subrange(longer[i], longer[i + 1]) == before.subrange(cuts[i], cuts[i + 1]));
        } else {
            assert(after.subrange(longer[i], longer[i + 1]) == after.skip(before.len() as int));
        }
    }
    assert forall|i: int| 0 <= i < done + 1 implies 0 <= #[trigger] longer[i] <= longer[i + 1]
        <= after.len() by {
        if i < done {
            assert(0 <= cuts[i] <= cuts[i + 1] <= before.len());
        }
    }
    assert(cut_up(done + 1, part, after, longer));
}

/// What may be written by the contributor at place `i` of `contributors`.
pub open spec fn snapshooter_part(
    contributors: Seq<BoxedSnapshooter>,
    now: Timestamp,
    descriptive: bool,
) -> spec_fn(int, Seq<(Seq<char>, ItemView)>) -> bool {
    |i: int, items: Seq<(Seq<char>, ItemView)>|
        0 <= i < contributors.len() && contributors[i].renders(now, descriptive, items)
}

/// What may be written by the handler at place `i` of `handlers`.
pub open spec fn handler_part<L: 'static>(
    handlers: Seq<BoxedHandler<L>>,
    now: Timestamp,
    descriptive: bool,
) -> spec_fn(int, Seq<(Seq<char>, ItemView)>) -> bool {
    |i: int, items: Seq<(Seq<char>, ItemView)>|
        0 <= i < handlers.len() && handlers[i].renders(now, descriptive, items)
}

/// Lets every contributor write into the snapshot, first to last.
pub fn render_snapshooters(
    contributors: &Vec<BoxedSnapshooter>,
    into: &mut Snapshot,
    now: Timestamp,
    descriptive: bool,
)
    ensures
        old(into)@.is_prefix_of(final(into)@),
        rendered_in_order(
            contributors.len() as int,
            snapshooter_part(contributors@, now, descriptive),
            final(into)@.skip(old(into)@.len() as int),
        ),
{
    let ghost part = snapshooter_part(contributors@, now, descriptive);
    let ghost start = into@.len() as int;
    proof {
        lemma_none_rendered(part);
        assert(into@.skip(start) == Seq::<(Seq<char>, ItemView)>::empty());
    }
    let mut i: usize = 0;
    while i < contributors.len()
        invariant
            i <= contributors.len(),
            start == old(into)@.len(),
            part == snapshooter_part(contributors@, now, descriptive),
            old(into)@.is_prefix_of(into@),
            rendered_in_order(i as int, part, into@.skip(start)),
        decreases contributors.len() - i,
    {
        let ghost before = into@;
        contributors[i].put_snapshot(into, now, descriptive);
        proof {
            assert(into@.skip(start).skip(before.skip(start).len() as int) == into@.skip(
                before.len() as int,
            ));
            lemma_one_more_rendered(i as int, part, before.skip(start), into@.skip(start));
        }
        i = i + 1;
    }
}

/// Lets every handler write into the snapshot, first to last.
pub fn render_handlers<L: 'static>(
    handlers: &Vec<BoxedHandler<L>>,
    into: &mut Snapshot,
    now: Timestamp,
    descriptive: bool,
)
    ensures
        old(into)@.is_prefix_of(final(into)@),
        rendered_in_order(
            handlers.len() as int,
            handler_part(handlers@, now, descriptive),
            final(into)@.skip(old(into)@.len() as int),
        ),
{
    let ghost part = handler_part(handlers@, now, descriptive);
    let ghost start = into@.len() as int;
    proof {
        lemma_none_rendered(part);
        assert(into@.skip(start) == Seq::<(Seq<char>, ItemView)>::empty());
    }
    let mut i: usize = 0;
    while i < handlers.len()
        invariant
            i <= handlers.len(),
            start == old(into)@.len(),
            part == handler_part(handlers@, now, descriptive),
            old(into)@.is_prefix_of(into@),
            rendered_in_order(i as int, part, into@.skip(start)),
        decreases handlers.len() - i,
    {
        let ghost before = into@;
        handlers[i].put_snapshot(into, now, descriptive);
        proof {
            assert(into@.skip(start).skip(before.skip(start).len() as int) == into@.skip(
                before.len() as int,
            ));
            lemma_one_more_rendered(i as int, part, before.skip(start), into@.skip(start));
        }
        i = i + 1;
    }
}

} // verus!

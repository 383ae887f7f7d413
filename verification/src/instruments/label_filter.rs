//! Which labels a node of the tree cares for.
use vstd::prelude::*;
use vstd::std_specs::cmp::PartialEqSpec;

verus! {

/// A set of labels, stored without a heap allocation while it holds at most
/// five of them. Which state holds the labels makes no difference to what
/// is accepted.
#[derive(Debug)]
pub enum LabelFilter<L> {
    AcceptNone,
    AcceptAll,
    One(L),
    Two(L, L),
    Three(L, L, L),
    Four(L, L, L, L),
    Five(L, L, L, L, L),
    Many(Vec<L>),
}

impl<L> LabelFilter<L> {
    /// Whether every label is accepted, listed or not.
    pub open spec fn accepts_all(&self) -> bool {
        self is AcceptAll
    }

    /// The labels that are listed, in the order in which they were given.
    pub open spec fn labels(&self) -> Seq<L> {
        match self {
            LabelFilter::AcceptNone => Seq::empty(),
            LabelFilter::AcceptAll => Seq::empty(),
            LabelFilter::One(a) => seq![*a],
            LabelFilter::Two(a, b) => seq![*a, *b],
            LabelFilter::Three(a, b, c) => seq![*a, *b, *c],
            LabelFilter::Four(a, b, c, d) => seq![*a, *b, *c, *d],
            LabelFilter::Five(a, b, c, d, e) => seq![*a, *b, *c, *d, *e],
            LabelFilter::Many(many) => many@,
        }
    }

    /// The state is the smallest one that can hold the labels: only more
    /// than five labels are kept in a vector.
    pub open spec fn is_compact(&self) -> bool {
        self matches LabelFilter::Many(many) ==> many@.len() > 5
    }

    /// `after` is what `add_label` makes of `self` and `label`.
    pub open spec fn grows_by(&self, label: L, after: &LabelFilter<L>) -> bool {
        &&& after.accepts_all() == self.accepts_all()
        &&& after.labels() =~= if self.accepts_all() {
            self.labels()
        } else {
            self.labels().push(label)
        }
        &&& self.is_compact() ==> after.is_compact()
    }

    /// `steps` are the states of a filter that accepts nothing at first
    /// and to which `labels` are added one at a time, first to last.
    pub open spec fn grows_along(labels: Seq<L>, steps: Seq<LabelFilter<L>>) -> bool {
        &&& steps.len() == labels.len() + 1
        &&& steps[0] is AcceptNone
        &&& forall|i: int|
            0 <= i < labels.len() ==> (#[trigger] steps[i]).grows_by(labels[i], &steps[i + 1])
    }

    /// `filter` can be had from a filter that accepts nothing by adding
    /// `labels` one at a time, first to last.
    pub open spec fn built_from(labels: Seq<L>, filter: LabelFilter<L>) -> bool {
        exists|steps: Seq<LabelFilter<L>>|
            #[trigger] Self::grows_along(labels, steps) && steps.last() == filter
    }
}

impl<L: PartialEq> LabelFilter<L> {
    /// Whether `label` equals one of `labels`.
    pub open spec fn listed(labels: Seq<L>, label: &L) -> bool {
        exists|i: int| 0 <= i < labels.len() && label.eq_spec(&#[trigger] labels[i])
    }

    /// Whether `label` passes the filter.
    pub open spec fn accepts_spec(&self, label: &L) -> bool {
        self.accepts_all() || Self::listed(self.labels(), label)
    }

    /// A filter for exactly one label.
    pub fn new(label: L) -> (filter: Self)
        ensures
            filter == LabelFilter::One(label),
    {
        LabelFilter::One(label)
    }

    /// A filter for the given labels, none if there are none.
    pub fn many(labels: Vec<L>) -> (filter: Self)
        ensures
            !filter.accepts_all(),
            filter.labels() == labels@,
            filter.is_compact(),
    {
        let mut labels = labels;
        let ghost given = labels@;
        if labels.len() == 0 {
            return LabelFilter::AcceptNone;
        }
        if labels.len() == 1 {
            let a = labels.pop().unwrap();
            return LabelFilter::One(a);
        }
        if labels.len() == 2 {
            let a = labels.pop().unwrap();
            let b = labels.pop().unwrap();
            return LabelFilter::Two(b, a);
        }
        if labels.len() == 3 {
            let a = labels.pop().unwrap();
            let b = labels.pop().unwrap();
            let c = labels.pop().unwrap();
            return LabelFilter::Three(c, b, a);
        }
        if labels.len() == 4 {
            let a = labels.pop().unwrap();
            let b = labels.pop().unwrap();
            let c = labels.pop().unwrap();
            let d = labels.pop().unwrap();
            return LabelFilter::Four(d, c, b, a);
        }
        if labels.len() == 5 {
            let a = labels.pop().unwrap();
            let b = labels.pop().unwrap();
            let c = labels.pop().unwrap();
            let d = labels.pop().unwrap();
            let e = labels.pop().unwrap();
            return LabelFilter::Five(e, d, c, b, a);
        }
        LabelFilter::Many(labels)
    }

    /// Whether `label` passes the filter. With at most five labels listed
    /// this is a chain of comparisons.
    pub fn accepts(&self, label: &L) -> (accepted: bool)
        ensures
            L::obeys_eq_spec() ==> accepted == self.accepts_spec(label),
    {
        match self {
            LabelFilter::AcceptNone => false,
            LabelFilter::AcceptAll => true,
            LabelFilter::One(a) => {
                let r = *label == *a;
                proof {
                    if r { assert(self.labels()[0] == *a); }
                }
                r
            },
            LabelFilter::Two(a, b) => {
                let r = *label == *a || *label == *b;
                proof {
                    if r { assert(self.labels()[0] == *a && self.labels()[1] == *b); }
                }
                r
            },
            LabelFilter::Three(a, b, c) => {
                let r = *label == *a || *label == *b || *label == *c;
                proof {
                    if r {
                        assert(self.labels()[0] == *a && self.labels()[1] == *b && self.labels()[2] == *c);
                    }
                }
                r
            },
            LabelFilter::Four(a, b, c, d) => {
                let r = *label == *a || *label == *b || *label == *c || *label == *d;
                proof {
                    if r {
                        assert(self.labels()[0] == *a && self.labels()[1] == *b);
                        assert(self.labels()[2] == *c && self.labels()[3] == *d);
                    }
                }
                r
            },
            LabelFilter::Five(a, b, c, d, e) => {
                let r = *label == *a || *label == *b || *label == *c || *label == *d || *label == *e;
                proof {
                    if r {
                        assert(self.labels()[0] == *a && self.labels()[1] == *b);
                        assert(self.labels()[2] == *c && self.labels()[3] == *d);
                        assert(self.labels()[4] == *e);
                    }
                }
                r
            },
            LabelFilter::Many(many) => {
                let mut i: usize = 0;
                while i < many.len()
                    invariant
                        i <= many.len(),
                        self.labels() == many@,
                        L::obeys_eq_spec() ==> forall|j: int| 0 <= j < i ==> !label.eq_spec(&#[trigger] many@[j]),
                    decreases many.len() - i,
                {
                    if *label == many[i] {
                        proof {
                            if L::obeys_eq_spec() {
                                assert(label.eq_spec(&self.labels()[i as int]));
                            }
                        }
                        return true;
                    }
                    i = i + 1;
                }
                false
            },
        }
    }

    /// Lists one more label. A filter that accepts every label stays as it
    /// is; no label that was accepted before is lost.
    pub fn add_label(&mut self, label: L)
        ensures
            old(self).grows_by(label, final(self)),
    {
        let mut current = LabelFilter::AcceptNone;
        std::mem::swap(self, &mut current);
        *self = match current {
            LabelFilter::AcceptAll => LabelFilter::AcceptAll,
            LabelFilter::AcceptNone => LabelFilter::One(label),
            LabelFilter::One(a) => LabelFilter::Two(a, label),
            LabelFilter::Two(a, b) => LabelFilter::Three(a, b, label),
            LabelFilter::Three(a, b, c) => LabelFilter::Four(a, b, c, label),
            LabelFilter::Four(a, b, c, d) => LabelFilter::Five(a, b, c, d, label),
            LabelFilter::Five(a, b, c, d, e) => {
                let mut labels: Vec<L> = Vec::new();
                labels.push(a);
                labels.push(b);
                labels.push(c);
                labels.push(d);
                labels.push(e);
                labels.push(label);
                LabelFilter::Many(labels)
            },
            LabelFilter::Many(many) => {
                let mut labels = many;
                labels.push(label);
                LabelFilter::Many(labels)
            },
        };
    }
}

/// While labels are added to a filter that accepts nothing at first, the
/// filter lists exactly the labels added so far, in the order of adding, and
/// is in the smallest state for them.
pub proof fn lemma_steps_list_what_was_added<L>(labels: Seq<L>, steps: Seq<LabelFilter<L>>, k: int)
    requires
        LabelFilter::grows_along(labels, steps),
        0 <= k <= labels.len(),
    ensures
        !steps[k].accepts_all(),
        steps[k].labels() == labels.take(k),
        steps[k].is_compact(),
    decreases k,
{
    if k > 0 {
        lemma_steps_list_what_was_added(labels, steps, k - 1);
        assert(steps[k - 1].grows_by(labels[k - 1], &steps[k]));
        assert(labels.take(k - 1).push(labels[k - 1]) == labels.take(k));
    }
}

/// A filter that was grown from nothing lists exactly the labels that were
/// added, in the order of adding, and is in the smallest state for them.
pub proof fn lemma_built_lists_what_was_added<L>(labels: Seq<L>, filter: LabelFilter<L>)
    requires
        LabelFilter::built_from(labels, filter),
    ensures
        !filter.accepts_all(),
        filter.labels() == labels,
        filter.is_compact(),
{
    let steps = choose|steps: Seq<LabelFilter<L>>|
        #[trigger] LabelFilter::grows_along(labels, steps) && steps.last() == filter;
    lemma_steps_list_what_was_added(labels, steps, labels.len() as int);
    assert(labels.take(labels.len() as int) == labels);
}

/// A filter that was grown from nothing accepts a label if and only if the
/// label equals one that was added.
pub proof fn lemma_built_accepts_what_was_added<L: PartialEq>(
    labels: Seq<L>,
    filter: LabelFilter<L>,
    label: L,
)
    requires
        LabelFilter::built_from(labels, filter),
    ensures
        filter.accepts_spec(&label) <==> LabelFilter::listed(labels, &label),
{
    lemma_built_lists_what_was_added(labels, filter);
}

/// Two filters that were grown from the same labels, added in whatever
/// order, accept the same labels.
pub proof fn lemma_order_of_adding_is_irrelevant<L: PartialEq>(
    first: Seq<L>,
    second: Seq<L>,
    one: LabelFilter<L>,
    other: LabelFilter<L>,
    label: L,
)
    requires
        LabelFilter::built_from(first, one),
        LabelFilter::built_from(second, other),
        first.to_multiset() == second.to_multiset(),
    ensures
        one.accepts_spec(&label) == other.accepts_spec(&label),
{
    lemma_built_lists_what_was_added(first, one);
    lemma_built_lists_what_was_added(second, other);
    if LabelFilter::listed(first, &label) {
        lemma_listed_in_rearrangement(first, second, label);
    }
    if LabelFilter::listed(second, &label) {
        lemma_listed_in_rearrangement(second, first, label);
    }
}

/// A label that equals one of `first` equals one of every rearrangement of
/// `first`.
pub proof fn lemma_listed_in_rearrangement<L: PartialEq>(first: Seq<L>, second: Seq<L>, label: L)
    requires
        first.to_multiset() == second.to_multiset(),
        LabelFilter::listed(first, &label),
    ensures
        LabelFilter::listed(second, &label),
{
    let i = choose|i: int| 0 <= i < first.len() && label.eq_spec(&#[trigger] first[i]);
    assert(first.contains(first[i]));
    vstd::seq_lib::to_multiset_contains(first, first[i]);
    vstd::seq_lib::to_multiset_contains(second, first[i]);
    let j = choose|j: int| 0 <= j < second.len() && second[j] == first[i];
    assert(label.eq_spec(&second[j]));
}

impl<L> Default for LabelFilter<L> {
    /// The filter that accepts every label.
    fn default() -> (filter: Self)
        ensures
            filter is AcceptAll,
    {
        LabelFilter::AcceptAll
    }
}

} // verus!

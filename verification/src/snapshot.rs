//! The rendered state of a tree of metrics: named values in the order in
//! which they were written.
use vstd::prelude::*;

verus! {

/// What a rendered item is worth to a reader: the text, the flag, the number
/// or the nested entries it holds.
pub enum ItemView {
    Text(Seq<char>),
    Boolean(bool),
    UInt(u64),
    Int(i64),
    Snapshot(Seq<(Seq<char>, ItemView)>),
}

/// One rendered value.
#[derive(Debug, PartialEq, Eq)]
pub enum ItemKind {
    Text(String),
    Boolean(bool),
    UInt(u64),
    Int(i64),
    Snapshot(Snapshot),
}

/// Named values in insertion order. The order is part of the result.
#[derive(Debug, PartialEq, Eq)]
pub struct Snapshot {
    pub items: Vec<(String, ItemKind)>,
}

impl ItemKind {
    pub open spec fn view(&self) -> ItemView
        decreases self,
    {
        match self {
            ItemKind::Text(t) => ItemView::Text(t@),
            ItemKind::Boolean(b) => ItemView::Boolean(*b),
            ItemKind::UInt(n) => ItemView::UInt(*n),
            ItemKind::Int(n) => ItemView::Int(*n),
            ItemKind::Snapshot(s) => ItemView::Snapshot(s.view()),
        }
    }
}

impl Snapshot {
    /// The entries as names and values, nested snapshots included.
    pub open spec fn view(&self) -> Seq<(Seq<char>, ItemView)>
        decreases self,
    {
        Seq::new(
            self.items@.len(),
            |i: int|
                if 0 <= i < self.items@.len() {
                    (self.items@[i].0@, self.items@[i].1.view())
                } else {
                    (Seq::empty(), ItemView::Boolean(false))
                },
        )
    }

    /// An empty snapshot.
    pub fn new() -> (s: Snapshot)
        ensures
            s@ == Seq::<(Seq<char>, ItemView)>::empty(),
    {
        Snapshot { items: Vec::new() }
    }

    /// Writes one more entry behind those that are there.
    pub fn push(&mut self, name: String, item: ItemKind)
        ensures
            final(self)@ == old(self)@.push((name@, item@)),
    {
        self.items.push((name, item));
    }

    /// Writes a flag under a fixed name.
    pub fn push_flag(&mut self, name: &str, value: bool)
        ensures
            final(self)@ == old(self)@.push((name@, ItemView::Boolean(value))),
    {
        self.push(name.to_owned(), ItemKind::Boolean(value));
    }

    /// Writes a text under a fixed name.
    pub fn push_text(&mut self, name: &str, text: &str)
        ensures
            final(self)@ == old(self)@.push((name@, ItemView::Text(text@))),
    {
        self.push(name.to_owned(), ItemKind::Text(text.to_owned()));
    }
}

} // verus!

//! What every node of the tree writes into a snapshot in the same way.
use vstd::prelude::*;

use crate::capability::Descriptive;
use crate::snapshot::{ItemView, Snapshot};
use crate::time::{TimeSpan, Timestamp};

verus! {

/// The entries for a title and a description: none unless the snapshot is
/// descriptive, and then one for each of the two that is there.
pub open spec fn descriptives(
    title: Option<Seq<char>>,
    description: Option<Seq<char>>,
    descriptive: bool,
) -> Seq<(Seq<char>, ItemView)> {
    if !descriptive {
        Seq::empty()
    } else {
        (match title {
            Some(t) => seq![("_title"@, ItemView::Text(t))],
            None => Seq::empty(),
        }) + (match description {
            Some(d) => seq![("_description"@, ItemView::Text(d))],
            None => Seq::empty(),
        })
    }
}

/// Whether a node with an inactivity limit has been idle for longer than
/// the limit allows. Without a limit no node is inactive.
pub open spec fn is_inactive(last_activity: Timestamp, limit: Option<TimeSpan>, now: Timestamp) -> bool {
    limit matches Some(d) && now.since(last_activity) > d.nanos
}

/// The two flags that tell whether a node is alive. A node without an
/// inactivity limit is always alive.
pub open spec fn liveness(last_activity: Timestamp, limit: Option<TimeSpan>, now: Timestamp) -> Seq<
    (Seq<char>, ItemView),
> {
    if is_inactive(last_activity, limit, now) {
        seq![("_inactive"@, ItemView::Boolean(true)), ("_active"@, ItemView::Boolean(false))]
    } else {
        seq![("_inactive"@, ItemView::Boolean(false)), ("_active"@, ItemView::Boolean(true))]
    }
}

/// Writes the title and the description of `what`, if the snapshot is to be
/// descriptive.
pub fn put_default_descriptives<T: Descriptive>(what: &T, into: &mut Snapshot, descriptive: bool)
    ensures
        final(into)@ == old(into)@ + descriptives(what.title_text(), what.description_text(), descriptive),
{
    if descriptive {
        if let Some(title) = what.title() {
            into.push_text("_title", title);
        }
        if let Some(description) = what.description() {
            into.push_text("_description", description);
        }
    }
}

/// Writes the two liveness flags of a node and says whether the node is
/// inactive.
pub fn put_liveness(
    into: &mut Snapshot,
    last_activity: Timestamp,
    limit: Option<TimeSpan>,
    now: Timestamp,
) -> (inactive: bool)
    ensures
        inactive == is_inactive(last_activity, limit, now),
        final(into)@ == old(into)@ + liveness(last_activity, limit, now),
{
    let inactive = match limit {
        Some(d) => now.elapsed_since(last_activity).nanos > d.nanos,
        None => false,
    };
    into.push_flag("_inactive", inactive);
    into.push_flag("_active", !inactive);
    inactive
}

} // verus!

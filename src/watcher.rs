//! Correlation of file-change events with tracked paths.
//!
//! The watch loop reads a batch of events, asks the registry which remote
//! updates they call for, performs them, and waits before the next batch. A
//! modification of a watched file calls for one update of that file per entry
//! that holds its watch; deletion and move of the file call for nothing, so
//! that a file renamed and created again stays tracked until it is unsynced;
//! an event of a watch that no entry holds is skipped.
use vstd::prelude::*;
use crate::registry::{IN_DELETE_SELF, IN_MODIFY, IN_MOVE_SELF, TrackedView};

verus! {

/// One event of the watch subsystem: the number of the watch that fired and the event's mask.
#[derive(Debug)]
pub struct WatchEvent {
    pub wd: i32,
    pub mask: u32,
}

/// What an event reports about a watched file.
#[derive(Debug)]
pub enum EventKind {
    Modify,
    DeleteSelf,
    MoveSelf,
    Other,
}

/// The kind of an event with mask `mask`; a mask with more than one bit, or another bit, is
/// `Other`.
pub open spec fn kind_of(mask: u32) -> EventKind {
    if mask == IN_MODIFY {
        EventKind::Modify
    } else if mask == IN_DELETE_SELF {
        EventKind::DeleteSelf
    } else if mask == IN_MOVE_SELF {
        EventKind::MoveSelf
    } else {
        EventKind::Other
    }
}

/// The kind of an event with mask `mask`.
pub fn classify(mask: u32) -> (r: EventKind)
    ensures
        r == kind_of(mask),
{
    if mask == IN_MODIFY {
        EventKind::Modify
    } else if mask == IN_DELETE_SELF {
        EventKind::DeleteSelf
    } else if mask == IN_MOVE_SELF {
        EventKind::MoveSelf
    } else {
        EventKind::Other
    }
}

/// The (local path, remote identifier) of each entry that holds watch `wd`, in order.
pub open spec fn holders_of(s: Seq<TrackedView>, wd: i32) -> Seq<(Seq<char>, Seq<char>)>
    decreases s.len(),
{
    if s.len() == 0 {
        Seq::empty()
    } else if s.last().wd == Some(wd) {
        holders_of(s.drop_last(), wd).push((s.last().path, s.last().drive_url))
    } else {
        holders_of(s.drop_last(), wd)
    }
}

/// The updates that one event calls for: those of the holders of its watch for a
/// modification, none otherwise.
pub open spec fn updates_for_event(s: Seq<TrackedView>, e: WatchEvent) -> Seq<(Seq<char>, Seq<char>)> {
    if kind_of(e.mask) is Modify {
        holders_of(s, e.wd)
    } else {
        Seq::empty()
    }
}

/// The updates that a batch of events calls for, event by event.
pub open spec fn updates_for_events(s: Seq<TrackedView>, es: Seq<WatchEvent>) -> Seq<
    (Seq<char>, Seq<char>),
>
    decreases es.len(),
{
    if es.len() == 0 {
        Seq::empty()
    } else {
        updates_for_events(s, es.drop_last()) + updates_for_event(s, es.last())
    }
}

/// The holders of a watch that exactly one entry holds are that entry alone.
proof fn lemma_single_holder(s: Seq<TrackedView>, i: int, wd: i32)
    requires
        0 <= i < s.len(),
        s[i].wd == Some(wd),
        forall|j: int| 0 <= j < s.len() && j != i ==> s[j].wd != Some(wd),
    ensures
        holders_of(s, wd) == seq![(s[i].path, s[i].drive_url)],
    decreases s.len(),
{
    let d = s.drop_last();
    if i == s.len() - 1 {
        lemma_no_holder(d, wd);
    } else {
        assert(d[i] == s[i]);
        assert forall|j: int| 0 <= j < d.len() && j != i implies d[j].wd != Some(wd) by {
            assert(d[j] == s[j]);
        }
        lemma_single_holder(d, i, wd);
    }
}

/// A watch that no entry holds has no holders.
proof fn lemma_no_holder(s: Seq<TrackedView>, wd: i32)
    requires
        forall|j: int| 0 <= j < s.len() ==> s[j].wd != Some(wd),
    ensures
        holders_of(s, wd) == Seq::<(Seq<char>, Seq<char>)>::empty(),
    decreases s.len(),
{
    if s.len() > 0 {
        let d = s.drop_last();
        assert forall|j: int| 0 <= j < d.len() implies d[j].wd != Some(wd) by {
            assert(d[j] == s[j]);
        }
        lemma_no_holder(d, wd);
    }
}

/// A modification reported on the watch of a tracked file calls for exactly one update, of
/// that file's path and remote identifier, where no other entry holds the same watch.
pub proof fn lemma_modify_updates_once(s: Seq<TrackedView>, i: int, e: WatchEvent)
    requires
        0 <= i < s.len(),
        s[i].wd == Some(e.wd),
        forall|j: int| 0 <= j < s.len() && j != i ==> s[j].wd != Some(e.wd),
        e.mask == IN_MODIFY,
    ensures
        updates_for_events(s, seq![e]) == seq![(s[i].path, s[i].drive_url)],
{
    lemma_single_holder(s, i, e.wd);
    assert(seq![e].drop_last() =~= Seq::<WatchEvent>::empty());
    assert(seq![e].last() == e);
    assert(updates_for_events(s, Seq::<WatchEvent>::empty()) == Seq::<(Seq<char>, Seq<char>)>::empty());
    assert(updates_for_events(s, seq![e]) == updates_for_events(s, Seq::<WatchEvent>::empty())
        + updates_for_event(s, e));
    assert(updates_for_events(s, seq![e]) =~= seq![(s[i].path, s[i].drive_url)]);
}

/// An event of a watch that no entry holds calls for no update.
pub proof fn lemma_unknown_watch_no_update(s: Seq<TrackedView>, e: WatchEvent)
    requires
        forall|j: int| 0 <= j < s.len() ==> s[j].wd != Some(e.wd),
    ensures
        updates_for_events(s, seq![e]) == Seq::<(Seq<char>, Seq<char>)>::empty(),
{
    lemma_no_holder(s, e.wd);
    assert(seq![e].drop_last() =~= Seq::<WatchEvent>::empty());
    assert(seq![e].last() == e);
    assert(updates_for_events(s, Seq::<WatchEvent>::empty()) == Seq::<(Seq<char>, Seq<char>)>::empty());
    assert(updates_for_events(s, seq![e]) == updates_for_events(s, Seq::<WatchEvent>::empty())
        + updates_for_event(s, e));
    assert(updates_for_events(s, seq![e]) =~= Seq::<(Seq<char>, Seq<char>)>::empty());
}

} // verus!

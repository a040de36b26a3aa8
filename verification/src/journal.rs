//! The workbench's event journal: numbered events, a bounded backlog, and
//! replay from a cursor.
use vstd::prelude::*;

verus! {

/// The most events the journal keeps.
pub const MAX_EVENTS: usize = 256;

/// One journaled event, as its JSON text, under its number.
#[derive(Debug, Clone)]
pub struct JournalEntry {
    pub id: u64,
    pub event: String,
}

/// The journal: the number the next event gets, and the events kept, oldest
/// first.
#[derive(Debug)]
pub struct Journal {
    pub next_id: u64,
    pub events: Vec<JournalEntry>,
}

pub open spec fn ids(events: Seq<JournalEntry>) -> Seq<u64> {
    events.map_values(|e: JournalEntry| e.id)
}

/// Each entry's number and text.
pub open spec fn entries_view(events: Seq<JournalEntry>) -> Seq<(u64, Seq<char>)> {
    events.map_values(|e: JournalEntry| (e.id, e.event@))
}

/// The events numbered after `cursor`, in order.
pub open spec fn after(events: Seq<JournalEntry>, cursor: u64) -> Seq<JournalEntry>
    decreases events.len(),
{
    if events.len() == 0 {
        Seq::empty()
    } else if events.last().id > cursor {
        after(events.drop_last(), cursor).push(events.last())
    } else {
        after(events.drop_last(), cursor)
    }
}

/// The number an appended event gets.
pub open spec fn assigned_id(next_id: u64) -> u64 {
    if next_id > 1 {
        next_id
    } else {
        1
    }
}

/// The journal after appending `event`: the next number moves past the one
/// given out, and the oldest event leaves when there are too many.
pub open spec fn appended(next_id: u64, events: Seq<JournalEntry>, event: String) -> (u64, Seq<JournalEntry>) {
    let id = assigned_id(next_id);
    let next = if id < u64::MAX {
        (id + 1) as u64
    } else {
        id
    };
    let pushed = events.push(JournalEntry { id, event });
    (next, if pushed.len() > 256 {
        pushed.drop_first()
    } else {
        pushed
    })
}

impl Journal {
    /// Events are numbered from one in increasing order, each below the
    /// next number, and no more than `MAX_EVENTS` are kept.
    pub open spec fn wf(&self) -> bool {
        &&& self.events@.len() <= 256
        &&& forall|i: int, j: int|
            0 <= i < j < self.events@.len() ==> (#[trigger] self.events@[i]).id < (
            #[trigger] self.events@[j]).id
        &&& forall|i: int|
            0 <= i < self.events@.len() ==> 0 < (#[trigger] self.events@[i]).id < self.next_id
    }

    pub open spec fn cursor_spec(&self) -> u64 {
        if self.next_id == 0 {
            0
        } else {
            (self.next_id - 1) as u64
        }
    }

    /// An empty journal.
    pub fn new() -> (j: Journal)
        ensures
            j.wf(),
            j.next_id == 0,
            j.events@.len() == 0,
    {
        Journal { next_id: 0, events: Vec::new() }
    }
}


/// The number of the latest event handed out: what a reader replays
/// from to see only what comes next.
pub fn cursor(journal: &Journal) -> (c: u64)
    ensures
        c == journal.cursor_spec(),
{
    if journal.next_id == 0 {
        0
    } else {
        journal.next_id - 1
    }
}

/// The events numbered after `cursor`, oldest first.
pub fn entries_after(journal: &Journal, cursor: u64) -> (out: Vec<JournalEntry>)
    ensures
        entries_view(out@) == entries_view(after(journal.events@, cursor)),
{
    let mut out: Vec<JournalEntry> = Vec::new();
    let mut i: usize = 0;
    while i < journal.events.len()
        invariant
            i <= journal.events@.len(),
            entries_view(out@) == entries_view(after(journal.events@.take(i as int), cursor)),
        decreases journal.events@.len() - i,
    {
        assert(journal.events@.take(i + 1).drop_last() =~= journal.events@.take(i as int));
        let e = &journal.events[i];
        if e.id > cursor {
            let ghost before = out@;
            out.push(JournalEntry { id: e.id, event: crate::text::copy_string(&e.event) });
            assert(entries_view(out@) =~= entries_view(before).push((e.id, e.event@)));
            assert(entries_view(after(journal.events@.take(i + 1), cursor)) =~= entries_view(
                after(journal.events@.take(i as int), cursor),
            ).push((e.id, e.event@)));
        }
        i = i + 1;
    }
    assert(journal.events@.take(i as int) =~= journal.events@);
    out
}

/// Add an event; older events beyond `MAX_EVENTS` are dropped. The
/// event's number is returned.
pub fn append(journal: &mut Journal, event: String) -> (id: u64)
    requires
        old(journal).wf(),
    ensures
        id == assigned_id(old(journal).next_id),
        (final(journal).next_id, final(journal).events@) == appended(
            old(journal).next_id,
            old(journal).events@,
            event,
        ),
        old(journal).next_id < u64::MAX ==> final(journal).wf(),
{
    let id: u64 = if journal.next_id > 1 {
        journal.next_id
    } else {
        1
    };
    journal.next_id = id.saturating_add(1);
    journal.events.push(JournalEntry { id, event });
    if journal.events.len() > MAX_EVENTS {
        journal.events.remove(0);
    }
    id
}

/// Drop the oldest event, keeping at least one.
pub fn drop_oldest(journal: &mut Journal)
    requires
        old(journal).wf(),
    ensures
        final(journal).wf(),
        final(journal).next_id == old(journal).next_id,
        old(journal).events@.len() > 1 ==> final(journal).events@ == old(journal).events@.drop_first(),
        old(journal).events@.len() <= 1 ==> final(journal).events@ == old(journal).events@,
{
    if journal.events.len() > 1 {
        journal.events.remove(0);
        assert(journal.events@ =~= old(journal).events@.drop_first());
    }
}

/// Replaying from the cursor taken before an append gives exactly the event
/// appended.
pub proof fn law_replay_from_cursor_yields_the_append(j: Journal, event: String)
    requires
        j.wf(),
        j.next_id < u64::MAX,
    ensures
        ({
            let (_, events) = appended(j.next_id, j.events@, event);
            after(events, j.cursor_spec()) == seq![JournalEntry { id: assigned_id(j.next_id), event }]
        }),
{
    let c = j.cursor_spec();
    let id = assigned_id(j.next_id);
    let pushed = j.events@.push(JournalEntry { id, event });
    lemma_after_none(j.events@, c);
    assert(pushed.drop_last() =~= j.events@);
    assert(after(pushed, c) =~= seq![JournalEntry { id, event }]);
    if pushed.len() > 256 {
        lemma_after_drop_first(pushed, c);
    }
}

/// No event of a well-formed journal is numbered after its cursor.
proof fn lemma_after_none(events: Seq<JournalEntry>, c: u64)
    requires
        forall|i: int| 0 <= i < events.len() ==> (#[trigger] events[i]).id <= c,
    ensures
        after(events, c) == Seq::<JournalEntry>::empty(),
    decreases events.len(),
{
    if events.len() > 0 {
        lemma_after_none(events.drop_last(), c);
    }
}

/// Dropping an event at or before the cursor does not change what is
/// replayed after it.
proof fn lemma_after_drop_first(events: Seq<JournalEntry>, c: u64)
    requires
        events.len() > 0,
        events[0].id <= c,
    ensures
        after(events.drop_first(), c) == after(events, c),
    decreases events.len(),
{
    if events.len() > 1 {
        lemma_after_drop_first(events.drop_last(), c);
        assert(events.drop_first().drop_last() =~= events.drop_last().drop_first());
        assert(events.drop_first().last() == events.last());
    } else {
        assert(events.drop_first().len() == 0);
        assert(events.drop_last().len() == 0);
        assert(events.last() == events[0]);
        assert(after(events.drop_first(), c) == Seq::<JournalEntry>::empty());
        assert(after(events.drop_last(), c) == Seq::<JournalEntry>::empty());
    }
}

/// The cursor after an append is the number the appended event got.
pub proof fn law_cursor_follows_the_latest_append(j: Journal, event: String)
    requires
        j.wf(),
        j.next_id < u64::MAX,
    ensures
        ({
            let (next, _) = appended(j.next_id, j.events@, event);
            (if next == 0 {
                0
            } else {
                (next - 1) as u64
            }) == assigned_id(j.next_id)
        }),
{
}

} // verus!

//! What has happened to the leadership of the cluster.

use vstd::prelude::*;

use crate::clock::current_millis;
use crate::text::clone_opt;

verus! {

/// How many events are kept.
pub const MAX_HISTORY_ENTRIES: usize = 100;

/// What kind of event it was.
#[derive(Debug, Clone, Copy, PartialEq, Eq, Structural)]
pub enum HistoryEventType {
    Failover,
    Switchover,
    Promote,
}

/// How a kind of event is written.
pub open spec fn event_text(t: HistoryEventType) -> Seq<char> {
    match t {
        HistoryEventType::Failover => "failover"@,
        HistoryEventType::Switchover => "switchover"@,
        HistoryEventType::Promote => "promote"@,
    }
}

impl HistoryEventType {
    /// How the kind of event is written.
    pub fn as_str(&self) -> (r: &'static str)
        ensures
            r@ == event_text(*self),
    {
        match self {
            HistoryEventType::Failover => "failover",
            HistoryEventType::Switchover => "switchover",
            HistoryEventType::Promote => "promote",
        }
    }
}

/// An event.
#[derive(Debug)]
pub struct HistoryEntry {
    /// When, in seconds since the Unix epoch.
    pub timestamp: u64,
    pub event_type: HistoryEventType,
    /// Who led before.
    pub old_leader: Option<String>,
    /// Who led afterwards.
    pub new_leader: Option<String>,
    pub reason: String,
}

impl Clone for HistoryEntry {
    fn clone(&self) -> (r: Self)
        ensures
            r == *self,
    {
        HistoryEntry {
            timestamp: self.timestamp,
            event_type: self.event_type,
            old_leader: clone_opt(&self.old_leader),
            new_leader: clone_opt(&self.new_leader),
            reason: self.reason.clone(),
        }
    }
}

/// The last events, oldest first, and no more than a fixed number of them.
#[derive(Debug)]
pub struct History {
    entries: Vec<HistoryEntry>,
}

impl View for History {
    type V = Seq<HistoryEntry>;

    closed spec fn view(&self) -> Seq<HistoryEntry> {
        self.entries@
    }
}

impl Clone for History {
    fn clone(&self) -> (r: Self)
        ensures
            r@ == self@,
    {
        proof {
            use_type_invariant(self);
        }
        let entries = self.entries.clone();
        assert(entries@ =~= self.entries@);
        History { entries }
    }
}

/// The events after one more: the oldest makes room for it where there is none.
pub open spec fn recorded(entries: Seq<HistoryEntry>, e: HistoryEntry) -> Seq<HistoryEntry> {
    if entries.len() >= MAX_HISTORY_ENTRIES {
        entries.skip(1).push(e)
    } else {
        entries.push(e)
    }
}

/// The last of some events, as many as are kept.
pub open spec fn newest(entries: Seq<HistoryEntry>) -> Seq<HistoryEntry> {
    if entries.len() > MAX_HISTORY_ENTRIES {
        entries.skip(entries.len() - MAX_HISTORY_ENTRIES)
    } else {
        entries
    }
}

impl History {
    #[verifier::type_invariant]
    spec fn bounded(self) -> bool {
        self.entries@.len() <= MAX_HISTORY_ENTRIES
    }

    /// Nothing has happened.
    pub fn new() -> (r: Self)
        ensures
            r@ == Seq::<HistoryEntry>::empty(),
    {
        History { entries: Vec::new() }
    }

    /// The history of these events, oldest first: the last of them, as many as are kept.
    pub fn restored(entries: Vec<HistoryEntry>) -> (r: Self)
        ensures
            r@ == newest(entries@),
    {
        let mut entries = entries;
        if entries.len() > MAX_HISTORY_ENTRIES {
            let at: usize = entries.len() - MAX_HISTORY_ENTRIES;
            let ghost all = entries@;
            let kept = entries.split_off(at);
            assert(kept@ =~= all.skip(at as int));
            return History { entries: kept };
        }
        History { entries }
    }

    /// Records an event that happened at `timestamp`.
    pub fn record_event_at(
        &mut self,
        timestamp: u64,
        event_type: HistoryEventType,
        old_leader: Option<String>,
        new_leader: Option<String>,
        reason: String,
    )
        ensures
            final(self)@ == recorded(
                old(self)@,
                HistoryEntry { timestamp, event_type, old_leader, new_leader, reason },
            ),
    {
        proof {
            use_type_invariant(&*self);
        }
        let mut entries: Vec<HistoryEntry> = Vec::new();
        std::mem::swap(&mut entries, &mut self.entries);
        let ghost before = entries@;
        if entries.len() >= MAX_HISTORY_ENTRIES {
            entries.remove(0);
            assert(entries@ =~= before.skip(1));
        }
        entries.push(HistoryEntry { timestamp, event_type, old_leader, new_leader, reason });
        self.entries = entries;
    }

    /// Records an event that happens now.
    pub fn record_event(
        &mut self,
        event_type: HistoryEventType,
        old_leader: Option<String>,
        new_leader: Option<String>,
        reason: String,
    )
        ensures
            exists|timestamp: u64|
                final(self)@ == #[trigger] recorded(
                    old(self)@,
                    HistoryEntry { timestamp, event_type, old_leader, new_leader, reason },
                ),
    {
        let timestamp: u64 = current_millis() / 1000;
        self.record_event_at(timestamp, event_type, old_leader, new_leader, reason);
    }

    /// The events, oldest first.
    pub fn entries(&self) -> (r: &[HistoryEntry])
        ensures
            r@ == self@,
            r@.len() <= MAX_HISTORY_ENTRIES,
    {
        proof {
            use_type_invariant(self);
        }
        self.entries.as_slice()
    }
}

impl Default for History {
    fn default() -> (r: Self)
        ensures
            r@ == Seq::<HistoryEntry>::empty(),
    {
        History::new()
    }
}

/// No more than a fixed number of events is kept, the last of them is the newest, and the others
/// stay in order.
pub proof fn law_history_is_bounded(entries: Seq<HistoryEntry>, e: HistoryEntry)
    requires
        entries.len() <= MAX_HISTORY_ENTRIES,
    ensures
        recorded(entries, e).len() <= MAX_HISTORY_ENTRIES,
        recorded(entries, e).last() == e,
        recorded(entries, e).drop_last() == entries.skip(
            if entries.len() == MAX_HISTORY_ENTRIES {
                1
            } else {
                0
            },
        ),
{
    assert(entries.skip(0) =~= entries);
    assert(recorded(entries, e).drop_last() =~= entries.skip(
        if entries.len() == MAX_HISTORY_ENTRIES {
            1
        } else {
            0
        },
    ));
}

/// A history is restored from the newest events, as many as are kept, in their order; fewer are kept
/// as they are. Restoring what was restored changes nothing.
pub proof fn law_newest_events_are_restored(entries: Seq<HistoryEntry>, i: int)
    ensures
        newest(entries).len() <= 100,
        newest(entries).len() == entries.len() || newest(entries).len() == 100,
        0 <= i < newest(entries).len() ==> newest(entries)[newest(entries).len() - 1 - i]
            == entries[entries.len() - 1 - i],
        newest(newest(entries)) == newest(entries),
{
}

/// Nothing is lost while there is room, and only the oldest event when there is none.
pub proof fn law_only_the_oldest_is_lost(entries: Seq<HistoryEntry>, e: HistoryEntry, i: int)
    requires
        entries.len() <= 100,
        0 <= i < entries.len(),
        i > 0 || entries.len() < 100,
    ensures
        recorded(entries, e).contains(entries[i]),
        recorded(entries, e).last() == e,
{
    if entries.len() == 100 {
        assert(recorded(entries, e)[i - 1] == entries[i]);
    } else {
        assert(recorded(entries, e)[i] == entries[i]);
    }
}

} // verus!

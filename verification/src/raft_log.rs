//! The log of the consensus protocol: entries in the order of their indexes.

use vstd::prelude::*;

use crate::state_machine::Request;

verus! {

/// The identity of a log entry: the term and node of the leader that proposed it, and its index.
#[derive(Debug, Clone, Copy, PartialEq, Eq, Structural)]
pub struct LogId {
    pub term: u64,
    pub node_id: u64,
    pub index: u64,
}

/// The members of the cluster, as the consensus layer writes them down. Nothing here looks inside.
#[derive(Debug)]
pub struct Membership {
    pub encoded: String,
}

impl Clone for Membership {
    fn clone(&self) -> (r: Self)
        ensures
            r == *self,
    {
        Membership { encoded: self.encoded.clone() }
    }
}

/// What a log entry carries.
#[derive(Debug)]
pub enum EntryPayload {
    /// Nothing: written by a new leader.
    Blank,
    /// A write to the store.
    Normal(Request),
    /// A change of the members of the cluster.
    Membership(Membership),
}

/// An entry of the log.
#[derive(Debug)]
pub struct LogEntry {
    pub log_id: LogId,
    pub payload: EntryPayload,
}

impl Clone for EntryPayload {
    fn clone(&self) -> (r: Self)
        ensures
            r == *self,
    {
        match self {
            EntryPayload::Blank => EntryPayload::Blank,
            EntryPayload::Normal(request) => EntryPayload::Normal(request.clone()),
            EntryPayload::Membership(membership) => EntryPayload::Membership(membership.clone()),
        }
    }
}

impl Clone for LogEntry {
    fn clone(&self) -> (r: Self)
        ensures
            r == *self,
    {
        LogEntry { log_id: self.log_id, payload: self.payload.clone() }
    }
}

/// The indexes rise from entry to entry.
pub open spec fn rising(s: Seq<LogEntry>) -> bool {
    forall|a: int, b: int|
        0 <= a < b < s.len() ==> (#[trigger] s[a]).log_id.index < (#[trigger] s[b]).log_id.index
}

/// One of the entries has this index.
pub open spec fn has_index(s: Seq<LogEntry>, index: u64) -> bool {
    exists|k: int| 0 <= k < s.len() && (#[trigger] s[k]).log_id.index == index
}

/// The entries by index.
pub open spec fn by_index(s: Seq<LogEntry>) -> Map<u64, LogEntry> {
    Map::new(
        |i: u64| has_index(s, i),
        |i: u64| s[choose|k: int| 0 <= k < s.len() && (#[trigger] s[k]).log_id.index == i],
    )
}

/// The entries of a rising list are found under their indexes.
pub proof fn lemma_by_index(s: Seq<LogEntry>)
    requires
        rising(s),
    ensures
        forall|k: int|
            0 <= k < s.len() ==> by_index(s).dom().contains((#[trigger] s[k]).log_id.index)
                && by_index(s)[s[k].log_id.index] == s[k],
{
    assert forall|k: int| 0 <= k < s.len() implies by_index(s).dom().contains(
        (#[trigger] s[k]).log_id.index,
    ) && by_index(s)[s[k].log_id.index] == s[k] by {
        let i = s[k].log_id.index;
        assert(has_index(s, i));
        let j = choose|j: int| 0 <= j < s.len() && (#[trigger] s[j]).log_id.index == i;
        if j < k {
            assert(s[j].log_id.index < s[k].log_id.index);
        } else if k < j {
            assert(s[k].log_id.index < s[j].log_id.index);
        }
    }
}

/// The log: at most one entry for each index.
#[derive(Debug)]
pub struct RaftLog {
    entries: Vec<LogEntry>,
}

impl View for RaftLog {
    type V = Map<u64, LogEntry>;

    closed spec fn view(&self) -> Map<u64, LogEntry> {
        by_index(self.entries@)
    }
}

impl RaftLog {
    /// The entries in the order of their indexes.
    pub closed spec fn in_order(self) -> Seq<LogEntry> {
        self.entries@
    }

    #[verifier::type_invariant]
    spec fn inv(self) -> bool {
        rising(self.entries@)
    }

    /// The empty log.
    pub fn new() -> (r: Self)
        ensures
            r@ == Map::<u64, LogEntry>::empty(),
            r.in_order() == Seq::<LogEntry>::empty(),
    {
        let r = RaftLog { entries: Vec::new() };
        assert(r@ =~= Map::empty());
        r
    }

    /// The number of entries.
    pub fn len(&self) -> (r: usize)
        ensures
            r == self.in_order().len(),
            rising(self.in_order()),
            self@ == by_index(self.in_order()),
    {
        proof {
            use_type_invariant(&*self);
        }
        self.entries.len()
    }

    /// The entry at position `i` in the order of the indexes.
    pub fn entry_at(&self, i: usize) -> (r: &LogEntry)
        requires
            i < self.in_order().len(),
        ensures
            *r == self.in_order()[i as int],
    {
        &self.entries[i]
    }

    /// The entry with the highest index.
    pub fn last(&self) -> (r: Option<&LogEntry>)
        ensures
            match r {
                Some(e) => self@.dom().contains(e.log_id.index) && self@[e.log_id.index] == *e
                    && forall|i: u64| #[trigger]
                    self@.dom().contains(i) ==> i <= e.log_id.index,
                None => self@ == Map::<u64, LogEntry>::empty(),
            },
    {
        proof {
            use_type_invariant(&*self);
            lemma_by_index(self.entries@);
        }
        let n: usize = self.entries.len();
        if n == 0 {
            assert(self@ =~= Map::empty());
            None
        } else {
            Some(&self.entries[n - 1])
        }
    }

    /// The number of entries whose index is below `index`.
    fn position(&self, index: u64) -> (r: usize)
        ensures
            r <= self.entries@.len(),
            forall|k: int| 0 <= k < r ==> (#[trigger] self.entries@[k]).log_id.index < index,
            forall|k: int|
                r <= k < self.entries@.len() ==> (#[trigger] self.entries@[k]).log_id.index >= index,
    {
        proof {
            use_type_invariant(&*self);
        }
        let mut i: usize = 0;
        while i < self.entries.len() && self.entries[i].log_id.index < index
            invariant
                i <= self.entries@.len(),
                forall|k: int| 0 <= k < i ==> (#[trigger] self.entries@[k]).log_id.index < index,
            decreases self.entries@.len() - i,
        {
            i = i + 1;
        }
        i
    }

    /// Puts `entry` under its index, in place of what stood there.
    pub fn insert(&mut self, entry: LogEntry)
        ensures
            final(self)@ == old(self)@.insert(entry.log_id.index, entry),
    {
        let index: u64 = entry.log_id.index;
        let at = self.position(index);
        proof {
            use_type_invariant(&*self);
        }
        let mut entries: Vec<LogEntry> = Vec::new();
        std::mem::swap(&mut entries, &mut self.entries);
        let ghost before = entries@;
        if at < entries.len() && entries[at].log_id.index == index {
            entries[at] = entry;
            assert(entries@ =~= before.update(at as int, entry));
        } else {
            entries.insert(at, entry);
            assert(entries@ =~= before.insert(at as int, entry));
        }
        proof {
            lemma_put(before, at as int, entry, entries@);
        }
        self.entries = entries;
    }

    /// Drops all entries with an index of `since` or more.
    pub fn truncate_since(&mut self, since: u64)
        ensures
            final(self)@ == old(self)@.restrict(Set::new(|i: u64| i < since)),
    {
        let at = self.position(since);
        proof {
            use_type_invariant(&*self);
        }
        let mut entries: Vec<LogEntry> = Vec::new();
        std::mem::swap(&mut entries, &mut self.entries);
        let ghost before = entries@;
        entries.truncate(at);
        assert(entries@ =~= before.take(at as int));
        proof {
            lemma_part(before, 0, at as int, Set::new(|i: u64| i < since));
        }
        self.entries = entries;
    }

    /// Drops all entries with an index of `upto` or less.
    pub fn purge_upto(&mut self, upto: u64)
        ensures
            final(self)@ == old(self)@.restrict(Set::new(|i: u64| i > upto)),
    {
        proof {
            use_type_invariant(&*self);
        }
        let mut at = self.position(upto);
        if at < self.entries.len() && self.entries[at].log_id.index == upto {
            at = at + 1;
        }
        let mut entries: Vec<LogEntry> = Vec::new();
        std::mem::swap(&mut entries, &mut self.entries);
        let ghost before = entries@;
        let kept = entries.split_off(at);
        assert(kept@ =~= before.subrange(at as int, before.len() as int));
        proof {
            assert forall|k: int| at <= k < before.len() implies (
            #[trigger] before[k]).log_id.index > upto by {
                if at > 0 {
                    assert(before[at - 1].log_id.index < before[k].log_id.index);
                }
            }
            lemma_part(before, at as int, before.len() as int, Set::new(|i: u64| i > upto));
        }
        self.entries = kept;
    }

    /// Copies of the entries with an index between `from` and `to`, both included, in order.
    pub fn range(&self, from: u64, to: u64) -> (r: Vec<LogEntry>)
        ensures
            r@ == self.in_order().filter(|e: LogEntry| from <= e.log_id.index <= to),
    {
        let mut r: Vec<LogEntry> = Vec::new();
        let mut i: usize = 0;
        let ghost keep = |e: LogEntry| from <= e.log_id.index <= to;
        assert(self.entries@.take(0) =~= Seq::empty());
        while i < self.entries.len()
            invariant
                i <= self.entries@.len(),
                keep == (|e: LogEntry| from <= e.log_id.index <= to),
                r@ == self.entries@.take(i as int).filter(keep),
            decreases self.entries@.len() - i,
        {
            let index: u64 = self.entries[i].log_id.index;
            proof {
                let t = self.entries@.take(i + 1);
                assert(t.drop_last() =~= self.entries@.take(i as int));
                reveal(Seq::filter);
                assert(t.last() == self.entries@[i as int]);
            }
            if from <= index && index <= to {
                r.push(self.entries[i].clone());
            }
            i = i + 1;
        }
        assert(self.entries@.take(i as int) =~= self.entries@);
        r
    }
}

/// Putting an entry at its place in a rising list puts it under its index.
pub proof fn lemma_put(before: Seq<LogEntry>, at: int, entry: LogEntry, after: Seq<LogEntry>)
    requires
        rising(before),
        0 <= at <= before.len(),
        forall|k: int| 0 <= k < at ==> (#[trigger] before[k]).log_id.index < entry.log_id.index,
        forall|k: int|
            at <= k < before.len() ==> (#[trigger] before[k]).log_id.index >= entry.log_id.index,
        if at < before.len() && before[at].log_id.index == entry.log_id.index {
            after == before.update(at, entry)
        } else {
            after == before.insert(at, entry)
        },
    ensures
        rising(after),
        by_index(after) == by_index(before).insert(entry.log_id.index, entry),
{
    let replaced = at < before.len() && before[at].log_id.index == entry.log_id.index;
    let src = |k: int|
        if k <= at || replaced {
            k
        } else {
            k - 1
        };
    assert forall|k: int| 0 <= k < after.len() && k != at implies #[trigger] after[k]
        == before[src(k)] by {}
    assert(after[at] == entry);
    assert forall|a: int, b: int| 0 <= a < b < after.len() implies (
    #[trigger] after[a]).log_id.index < (#[trigger] after[b]).log_id.index by {
        if a != at && b != at {
            assert(before[src(a)].log_id.index < before[src(b)].log_id.index);
        } else if a == at {
            if replaced {
                assert(before[at].log_id.index < before[b].log_id.index);
            } else {
                assert(before[b - 1].log_id.index >= entry.log_id.index);
                if before[b - 1].log_id.index == entry.log_id.index {
                    if b - 1 > at {
                        assert(before[at].log_id.index < before[b - 1].log_id.index);
                    }
                }
            }
        } else {
            assert(before[a].log_id.index < entry.log_id.index);
        }
    }
    lemma_by_index(before);
    lemma_by_index(after);
    let m = by_index(before).insert(entry.log_id.index, entry);
    assert forall|i: u64| by_index(after).dom().contains(i) <==> m.dom().contains(i) by {
        if by_index(after).dom().contains(i) {
            let k = choose|k: int| 0 <= k < after.len() && (#[trigger] after[k]).log_id.index == i;
            if k != at {
                assert(before[src(k)].log_id.index == i);
            }
        }
        if m.dom().contains(i) {
            if i == entry.log_id.index {
                assert(after[at].log_id.index == i);
            } else {
                let k = choose|k: int|
                    0 <= k < before.len() && (#[trigger] before[k]).log_id.index == i;
                if k < at || replaced {
                    assert(after[k].log_id.index == i);
                } else {
                    assert(after[k + 1].log_id.index == i);
                }
            }
        }
    }
    assert forall|i: u64| by_index(after).dom().contains(i) implies by_index(after)[i] == m[i] by {
        let k = choose|k: int| 0 <= k < after.len() && (#[trigger] after[k]).log_id.index == i;
        assert(by_index(after)[after[k].log_id.index] == after[k]);
        if k != at {
            let j = src(k);
            assert(by_index(before)[before[j].log_id.index] == before[j]);
            if k < at {
                assert(after[k].log_id.index < after[at].log_id.index);
            } else {
                assert(after[at].log_id.index < after[k].log_id.index);
            }
        }
    }
    assert(by_index(after) =~= m);
}

proof fn lemma_part(s: Seq<LogEntry>, from: int, to: int, keep: Set<u64>)
    requires
        rising(s),
        0 <= from <= to <= s.len(),
        forall|k: int|
            0 <= k < s.len() ==> (keep.contains((#[trigger] s[k]).log_id.index) <==> from <= k < to),
    ensures
        rising(s.subrange(from, to)),
        by_index(s.subrange(from, to)) == by_index(s).restrict(keep),
{
    let t = s.subrange(from, to);
    assert forall|a: int, b: int| 0 <= a < b < t.len() implies (#[trigger] t[a]).log_id.index < (
    #[trigger] t[b]).log_id.index by {
        assert(s[from + a].log_id.index < s[from + b].log_id.index);
    }
    lemma_by_index(s);
    lemma_by_index(t);
    let m = by_index(s).restrict(keep);
    assert forall|i: u64| by_index(t).dom().contains(i) <==> m.dom().contains(i) by {
        if by_index(t).dom().contains(i) {
            let k = choose|k: int| 0 <= k < t.len() && (#[trigger] t[k]).log_id.index == i;
            assert(s[from + k].log_id.index == i);
        }
        if m.dom().contains(i) {
            let k = choose|k: int| 0 <= k < s.len() && (#[trigger] s[k]).log_id.index == i;
            assert(t[k - from].log_id.index == i);
        }
    }
    assert forall|i: u64| by_index(t).dom().contains(i) implies by_index(t)[i] == m[i] by {
        let k = choose|k: int| 0 <= k < t.len() && (#[trigger] t[k]).log_id.index == i;
        assert(by_index(t)[t[k].log_id.index] == t[k]);
        assert(by_index(s)[s[from + k].log_id.index] == s[from + k]);
    }
    assert(by_index(t) =~= m);
}

} // verus!

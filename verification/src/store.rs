//! The storage of a consensus node: its vote, its log, the replicated store and the last snapshot.

use vstd::prelude::*;

use crate::raft_log::{EntryPayload, LogEntry, LogId, Membership, RaftLog};
use crate::state_machine;
use crate::state_machine::{KvEntry, KvStateMachine, Request, Response};
use crate::strmap::StringMap;
use crate::text;
use crate::text::u64_to_string;
use crate::wal;
use crate::wal::WalReplayResult;

verus! {

/// A vote: for which leader, and whether a quorum granted it.
#[derive(Debug, Clone, Copy, PartialEq, Eq, Structural)]
pub struct Vote {
    pub term: u64,
    pub node_id: u64,
    pub committed: bool,
}

/// The members of the cluster, and the log entry that set them.
#[derive(Debug)]
pub struct StoredMembership {
    pub log_id: Option<LogId>,
    pub membership: Membership,
}

impl Clone for StoredMembership {
    fn clone(&self) -> (r: Self)
        ensures
            r == *self,
    {
        StoredMembership { log_id: self.log_id, membership: self.membership.clone() }
    }
}

/// What is known of a snapshot besides its contents.
#[derive(Debug)]
pub struct SnapshotMeta {
    pub last_log_id: Option<LogId>,
    pub last_membership: StoredMembership,
    pub snapshot_id: String,
}

/// A snapshot that was received.
#[derive(Debug)]
pub struct StoredSnapshot {
    pub meta: SnapshotMeta,
    pub data: Vec<u8>,
}

/// The ends of the log.
#[derive(Debug, Clone, Copy, PartialEq, Eq, Structural)]
pub struct LogEnds {
    /// The last entry that was dropped from the front.
    pub last_purged_log_id: Option<LogId>,
    /// The last entry, or the last one that was dropped where there is none.
    pub last_log_id: Option<LogId>,
}

/// The storage of a node.
#[derive(Debug)]
pub struct MemStore {
    pub vote: Option<Vote>,
    pub committed: Option<LogId>,
    pub log: RaftLog,
    pub last_purged: Option<LogId>,
    pub state_machine: KvStateMachine,
    pub last_applied_log: Option<LogId>,
    pub last_membership: StoredMembership,
    pub snapshot: Option<StoredSnapshot>,
}

/// The log part of a storage.
pub open spec fn log_state(s: MemStore) -> wal::LogState {
    wal::LogState { log: s.log@, last_purged: s.last_purged }
}

/// Everything but the log is the same.
pub open spec fn same_but_log(a: MemStore, b: MemStore) -> bool {
    &&& a.vote == b.vote
    &&& a.committed == b.committed
    &&& a.state_machine == b.state_machine
    &&& a.last_applied_log == b.last_applied_log
    &&& a.last_membership == b.last_membership
    &&& a.snapshot == b.snapshot
}

/// The part of a storage that applied entries change.
#[verifier::ext_equal]
pub ghost struct Applied {
    pub store: state_machine::KvState,
    pub last_applied_log: Option<LogId>,
    pub last_membership: StoredMembership,
}

/// The part of a storage that applied entries change.
pub open spec fn applied(s: MemStore) -> Applied {
    Applied {
        store: s.state_machine@,
        last_applied_log: s.last_applied_log,
        last_membership: s.last_membership,
    }
}

/// The storage after one entry, with the clock at `clock`, and the answer to it.
pub open spec fn apply_entry(a: Applied, e: LogEntry, clock: u64) -> (Applied, Response) {
    let b = Applied { last_applied_log: Some(e.log_id), ..a };
    match e.payload {
        EntryPayload::Blank => (b, Response::Done { version: e.log_id.index }),
        EntryPayload::Normal(req) => {
            let (store, resp) = state_machine::step(a.store, req@, e.log_id.index, clock);
            (Applied { store, ..b }, resp)
        },
        EntryPayload::Membership(membership) => (
            Applied {
                last_membership: StoredMembership { log_id: Some(e.log_id), membership },
                ..b
            },
            Response::Done { version: e.log_id.index },
        ),
    }
}

/// The storage after some entries, with the clock at the application of each, and the answers.
pub open spec fn apply_entries(a: Applied, entries: Seq<LogEntry>, clocks: Seq<u64>) -> (
    Applied,
    Seq<Response>,
)
    decreases entries.len(),
{
    if entries.len() == 0 {
        (a, Seq::empty())
    } else {
        let (b, rs) = apply_entries(a, entries.drop_last(), clocks);
        let (c, r) = apply_entry(b, entries.last(), clocks[entries.len() - 1]);
        (c, rs.push(r))
    }
}

/// The expiry time of the write in an entry, if it holds one, is within range.
pub open spec fn entry_fits(e: LogEntry, clock: u64) -> bool {
    match e.payload {
        EntryPayload::Normal(req) => state_machine::fits(req@, clock),
        _ => true,
    }
}

impl MemStore {
    /// An empty storage.
    pub fn new() -> (r: Self)
        ensures
            r.vote is None,
            r.committed is None,
            log_state(r) == wal::empty_log(),
            applied(r).store == (state_machine::KvState { data: Map::empty(), last_applied: 0 }),
            r.last_applied_log is None,
            r.last_membership.log_id is None,
            r.last_membership.membership.encoded@ == Seq::<char>::empty(),
            r.snapshot is None,
    {
        MemStore {
            vote: None,
            committed: None,
            log: RaftLog::new(),
            last_purged: None,
            state_machine: KvStateMachine::new(),
            last_applied_log: None,
            last_membership: StoredMembership {
                log_id: None,
                membership: Membership { encoded: String::new() },
            },
            snapshot: None,
        }
    }

    /// A storage made of what was found on disk: vote and commit mark, the replicated store, the
    /// log file, and the members with the last applied entry. What was not found stays as in an
    /// empty storage.
    pub fn new_persistent(
        hard_state: Option<(Option<Vote>, Option<LogId>)>,
        state_machine: KvStateMachine,
        replayed: Option<WalReplayResult>,
        membership: Option<(Option<LogId>, StoredMembership)>,
    ) -> (r: Self)
        ensures
            match hard_state {
                Some(hs) => r.vote == hs.0 && r.committed == hs.1,
                None => r.vote is None && r.committed is None,
            },
            r.state_machine == state_machine,
            match replayed {
                Some(w) => r.log == w.log && r.last_purged == w.last_purged,
                None => log_state(r) == wal::empty_log(),
            },
            match membership {
                Some(m) => r.last_applied_log == m.0 && r.last_membership == m.1,
                None => r.last_applied_log is None && r.last_membership.log_id is None
                    && r.last_membership.membership.encoded@ == Seq::<char>::empty(),
            },
            r.snapshot is None,
    {
        let mut store = MemStore::new();
        if let Some((vote, committed)) = hard_state {
            store.vote = vote;
            store.committed = committed;
        }
        store.state_machine = state_machine;
        if let Some(w) = replayed {
            store.log = w.log;
            store.last_purged = w.last_purged;
        }
        if let Some((last_applied_log, last_membership)) = membership {
            store.last_applied_log = last_applied_log;
            store.last_membership = last_membership;
        }
        store
    }

    /// The ends of the log.
    pub fn get_log_state(&self) -> (r: LogEnds)
        ensures
            r.last_purged_log_id == self.last_purged,
            if self.log@ == Map::<u64, LogEntry>::empty() {
                r.last_log_id == self.last_purged
            } else {
                &&& r.last_log_id is Some
                &&& self.log@.dom().contains(r.last_log_id->0.index)
                &&& self.log@[r.last_log_id->0.index].log_id == r.last_log_id->0
                &&& forall|i: u64| #[trigger]
                    self.log@.dom().contains(i) ==> i <= r.last_log_id->0.index
            },
    {
        let last_log_id: Option<LogId> = match self.log.last() {
            Some(e) => {
                assert(self.log@.dom().contains(e.log_id.index));
                Some(e.log_id)
            },
            None => self.last_purged,
        };
        LogEnds { last_purged_log_id: self.last_purged, last_log_id }
    }

    /// Puts the entries into the log, each under its index.
    pub fn append_to_log(&mut self, entries: &Vec<LogEntry>)
        ensures
            log_state(*final(self)) == append_all(log_state(*old(self)), entries@),
            same_but_log(*final(self), *old(self)),
    {
        let mut i: usize = 0;
        assert(entries@.take(0) =~= Seq::empty());
        while i < entries.len()
            invariant
                i <= entries@.len(),
                log_state(*self) == append_all(log_state(*old(self)), entries@.take(i as int)),
                same_but_log(*self, *old(self)),
            decreases entries@.len() - i,
        {
            self.log.insert(entries[i].clone());
            i = i + 1;
            assert(entries@.take(i as int).drop_last() =~= entries@.take(i - 1));
            assert(log_state(*self) =~= append_all(log_state(*old(self)), entries@.take(i as int)));
        }
        assert(entries@.take(i as int) =~= entries@);
    }

    /// Drops the entries from `log_id` on.
    pub fn delete_conflict_logs_since(&mut self, log_id: LogId)
        ensures
            log_state(*final(self)) == wal::apply_op(
                log_state(*old(self)),
                wal::LogOp::Truncate(log_id.index),
            ),
            same_but_log(*final(self), *old(self)),
    {
        self.log.truncate_since(log_id.index);
    }

    /// Drops the entries up to `log_id`.
    pub fn purge_logs_upto(&mut self, log_id: LogId)
        ensures
            log_state(*final(self)) == wal::apply_op(
                log_state(*old(self)),
                wal::LogOp::Purge(log_id),
            ),
            same_but_log(*final(self), *old(self)),
    {
        self.log.purge_upto(log_id.index);
        self.last_purged = Some(log_id);
    }

    /// Applies committed entries in order and returns the answer to each.
    pub fn apply_to_state_machine(&mut self, entries: &Vec<LogEntry>) -> (r: Vec<Response>)
        requires
            forall|i: int| 0 <= i < entries@.len() ==> entry_fits(#[trigger] entries@[i], 0),
        ensures
            exists|clocks: Seq<u64>| #[trigger]
                apply_entries(applied(*old(self)), entries@, clocks) == (
                    applied(*final(self)),
                    r@,
                ) && clocks.len() == entries@.len(),
            log_state(*final(self)) == log_state(*old(self)),
            final(self).vote == old(self).vote,
            final(self).committed == old(self).committed,
            final(self).snapshot == old(self).snapshot,
    {
        let mut results: Vec<Response> = Vec::new();
        let ghost mut clocks: Seq<u64> = Seq::empty();
        let ghost start = applied(*self);
        let mut i: usize = 0;
        assert(entries@.take(0) =~= Seq::empty());
        assert(apply_entries(start, entries@.take(0), clocks) == (applied(*self), results@));
        while i < entries.len()
            invariant
                i <= entries@.len(),
                forall|j: int| 0 <= j < entries@.len() ==> entry_fits(#[trigger] entries@[j], 0),
                clocks.len() == i,
                start == applied(*old(self)),
                apply_entries(start, entries@.take(i as int), clocks) == (applied(*self), results@),
                log_state(*self) == log_state(*old(self)),
                self.vote == old(self).vote,
                self.committed == old(self).committed,
                self.snapshot == old(self).snapshot,
            decreases entries@.len() - i,
        {
            let entry = &entries[i];
            let ghost before = applied(*self);
            let ghost done = results@;
            let ghost mut clock: u64 = 0;
            assert(entry_fits(entries@[i as int], 0));
            self.last_applied_log = Some(entry.log_id);
            let response = match &entry.payload {
                EntryPayload::Blank => Response::Done { version: entry.log_id.index },
                EntryPayload::Normal(request) => {
                    let ghost sm = self.state_machine@;
                    let response = self.state_machine.apply(request, entry.log_id.index);
                    proof {
                        clock = choose|c: u64|
                            state_machine::fits(request@, c) && #[trigger] state_machine::step(
                                sm,
                                request@,
                                entry.log_id.index,
                                c,
                            ) == (self.state_machine@, response);
                    }
                    response
                },
                EntryPayload::Membership(membership) => {
                    self.last_membership = StoredMembership {
                        log_id: Some(entry.log_id),
                        membership: membership.clone(),
                    };
                    Response::Done { version: entry.log_id.index }
                },
            };
            results.push(response);
            proof {
                let old_clocks = clocks;
                clocks = clocks.push(clock);
                let now = entries@.take(i + 1);
                assert(now.drop_last() =~= entries@.take(i as int));
                assert(now.last() == entries@[i as int]);
                lemma_clocks(start, now.drop_last(), old_clocks, clocks);
                assert(apply_entry(before, *entry, clock).0 =~= applied(*self));
            }
            i = i + 1;
        }
        assert(entries@.take(i as int) =~= entries@);
        results
    }

    /// The entry under `key`, unless it has expired.
    pub fn get(&self, key: &str) -> (r: Option<&KvEntry>)
        ensures
            exists|now: u64|
                match r {
                    Some(e) => #[trigger] state_machine::lookup(self.state_machine@, key@, now)
                        == Some(e@),
                    None => state_machine::lookup(self.state_machine@, key@, now) is None,
                },
    {
        self.state_machine.get(key)
    }

    /// The entries under the keys that begin with `prefix`, without those that have expired.
    pub fn get_prefix(&self, prefix: &str) -> (r: StringMap<&KvEntry>)
        ensures
            exists|now: u64| #[trigger]
                state_machine::prefix_result(self.state_machine@, prefix@, now, r@),
    {
        self.state_machine.get_prefix(prefix)
    }

    /// The name of a snapshot of the present state.
    pub fn snapshot_id(&self) -> (r: String)
        ensures
            r@ == snapshot_name(self.last_applied_log),
    {
        let mut r = String::new();
        if let Some(id) = self.last_applied_log {
            r.append("T");
            r.append(u64_to_string(id.term).as_str());
            r.append("-N");
            r.append(u64_to_string(id.node_id).as_str());
            r.append("-");
            r.append(u64_to_string(id.index).as_str());
        }
        r.append("-snap");
        assert(r@ =~= snapshot_name(self.last_applied_log));
        r
    }

    /// Replaces the replicated store by that of a snapshot.
    pub fn install_snapshot(
        &mut self,
        meta: SnapshotMeta,
        state_machine: KvStateMachine,
        data: Vec<u8>,
    )
        ensures
            final(self).state_machine == state_machine,
            final(self).last_applied_log == meta.last_log_id,
            final(self).last_membership == meta.last_membership,
            final(self).snapshot == Some(StoredSnapshot { meta, data }),
            log_state(*final(self)) == log_state(*old(self)),
            final(self).vote == old(self).vote,
            final(self).committed == old(self).committed,
    {
        self.state_machine = state_machine;
        self.last_applied_log = meta.last_log_id;
        self.last_membership = meta.last_membership.clone();
        self.snapshot = Some(StoredSnapshot { meta, data });
    }
}

/// The name of a snapshot that ends with the given entry.
pub open spec fn snapshot_name(last: Option<LogId>) -> Seq<char> {
    (match last {
        Some(id) => "T"@ + text::dec(id.term as nat) + "-N"@ + text::dec(id.node_id as nat) + "-"@
            + text::dec(id.index as nat),
        None => Seq::empty(),
    }) + "-snap"@
}

/// The log after some entries were put into it.
pub open spec fn append_all(s: wal::LogState, entries: Seq<LogEntry>) -> wal::LogState
    decreases entries.len(),
{
    if entries.len() == 0 {
        s
    } else {
        wal::apply_op(append_all(s, entries.drop_last()), wal::LogOp::Append(entries.last()))
    }
}

proof fn lemma_clocks(a: Applied, entries: Seq<LogEntry>, c1: Seq<u64>, c2: Seq<u64>)
    requires
        c1.len() >= entries.len(),
        c1.is_prefix_of(c2),
    ensures
        apply_entries(a, entries, c1) == apply_entries(a, entries, c2),
    decreases entries.len(),
{
    if entries.len() > 0 {
        lemma_clocks(a, entries.drop_last(), c1, c2);
        assert(c1[entries.len() - 1] == c2[entries.len() - 1]);
    }
}

/// How a request is named in messages.
pub open spec fn request_name(r: state_machine::RequestView) -> Seq<char> {
    match r {
        state_machine::RequestView::SetKey { key, .. } => "Set("@ + key + ")"@,
        state_machine::RequestView::Delete { key, .. } => "Delete("@ + key + ")"@,
        state_machine::RequestView::ExpireKeys { .. } => "ExpireKeys"@,
    }
}

impl Request {
    /// How the request is named in messages.
    pub fn describe(&self) -> (r: String)
        ensures
            r@ == request_name(self@),
    {
        match self {
            Request::SetKey { key, .. } => {
                let mut r = "Set(".to_string();
                r.append(key.as_str());
                r.append(")");
                r
            },
            Request::Delete { key, .. } => {
                let mut r = "Delete(".to_string();
                r.append(key.as_str());
                r.append(")");
                r
            },
            Request::ExpireKeys { .. } => "ExpireKeys".to_string(),
        }
    }
}

// ---------------------------------------------------------------------------------------------
// Laws
// ---------------------------------------------------------------------------------------------
/// The change that a record of the log file stands for is the change that the storage made: after
/// a restart the log read from the file is the log that the storage held.
pub proof fn law_log_file_keeps_log(
    recs: Seq<(wal::RecordType, Seq<u8>)>,
    entries: spec_fn(int) -> Option<LogEntry>,
)
    requires
        wal::all_good(recs, entries),
    ensures
        wal::replay(
            wal::bytes_of(recs),
            wal::entries_of(recs, entries),
            wal::Replayed { state: wal::empty_log(), valid_len: 0 },
        ) == (wal::Replayed {
            state: wal::fold_records(recs, entries, wal::empty_log()),
            valid_len: wal::bytes_of(recs).len() as int,
        }),
{
    wal::law_replay_of_written(
        recs,
        entries,
        Seq::empty(),
        Seq::empty(),
        wal::Replayed { state: wal::empty_log(), valid_len: 0 },
    );
    assert(wal::bytes_of(recs) + Seq::<u8>::empty() =~= wal::bytes_of(recs));
    assert(wal::entries_of(recs, entries) + Seq::<Option<LogEntry>>::empty() =~= wal::entries_of(
        recs,
        entries,
    ));
}

/// Two storages that apply the same entries give the same answers and hold the same data, whatever
/// their clocks show, where every write carries the time of its proposal.
pub proof fn law_replicas_agree(a: Applied, entries: Seq<LogEntry>, c1: Seq<u64>, c2: Seq<u64>)
    requires
        forall|i: int|
            0 <= i < entries.len() ==> match (#[trigger] entries[i]).payload {
                EntryPayload::Normal(req) => state_machine::is_timed(req@),
                _ => true,
            },
    ensures
        apply_entries(a, entries, c1) == apply_entries(a, entries, c2),
    decreases entries.len(),
{
    if entries.len() > 0 {
        let init = entries.drop_last();
        assert forall|i: int| 0 <= i < init.len() implies match (#[trigger] init[i]).payload {
            EntryPayload::Normal(req) => state_machine::is_timed(req@),
            _ => true,
        } by {
            assert(entries[i] == init[i]);
        }
        law_replicas_agree(a, init, c1, c2);
        assert(entries[entries.len() - 1] == entries.last());
    }
}

/// What an entry of the log does goes by what it holds: a write goes to the store and is answered
/// by it, a membership takes the place of the last one, and every other part stays as it was. Each
/// entry becomes the last one applied.
pub proof fn law_entry_does_what_it_holds(a: Applied, e: LogEntry, clock: u64)
    ensures
        ({
            let (b, answer) = apply_entry(a, e, clock);
            &&& b.last_applied_log == Some(e.log_id)
            &&& !(e.payload is Normal) ==> b.store == a.store && answer == (Response::Done {
                version: e.log_id.index,
            })
            &&& !(e.payload is Membership) ==> b.last_membership == a.last_membership
            &&& e.payload matches EntryPayload::Membership(m) ==> b.last_membership.membership == m
                && b.last_membership.log_id == Some(e.log_id)
            &&& e.payload matches EntryPayload::Normal(req) ==> (b.store, answer)
                == state_machine::step(a.store, req@, e.log_id.index, clock)
            &&& e.payload is Normal ==> b.store.last_applied == e.log_id.index
        }),
{
}

/// Every entry is answered, in the order of the entries, and each is applied to what the entries
/// before it left.
pub proof fn law_every_entry_is_answered(
    a: Applied,
    entries: Seq<LogEntry>,
    clocks: Seq<u64>,
    i: int,
)
    requires
        0 <= i < entries.len(),
    ensures
        apply_entries(a, entries, clocks).1.len() == entries.len(),
        apply_entries(a, entries, clocks).1[i] == apply_entry(
            apply_entries(a, entries.take(i), clocks).0,
            entries[i],
            clocks[i],
        ).1,
        apply_entries(a, entries.take(i + 1), clocks).0 == apply_entry(
            apply_entries(a, entries.take(i), clocks).0,
            entries[i],
            clocks[i],
        ).0,
        apply_entries(a, entries, clocks).0.last_applied_log == Some(entries.last().log_id),
    decreases entries.len(),
{
    reveal_with_fuel(apply_entries, 2);
    let init = entries.drop_last();
    let some = entries.take(i + 1);
    assert(some.drop_last() =~= entries.take(i));
    assert(some.last() == entries[i]);
    if i < init.len() {
        assert(init.take(i) =~= entries.take(i));
        assert(init[i] == entries[i]);
        law_every_entry_is_answered(a, init, clocks, i);
    } else {
        assert(init =~= entries.take(i));
        if i > 0 {
            law_every_entry_is_answered(a, init, clocks, i - 1);
        }
    }
}

/// After some entries were appended the log has each of them under its index, the later one where
/// two have the same, and what it had before under every other index.
pub proof fn law_appended_entries_are_in_the_log(
    s: wal::LogState,
    entries: Seq<LogEntry>,
    i: u64,
)
    ensures
        append_all(s, entries).last_purged == s.last_purged,
        (forall|k: int| 0 <= k < entries.len() ==> (#[trigger] entries[k]).log_id.index != i) ==> (
        append_all(s, entries).log.dom().contains(i) <==> s.log.dom().contains(i)) && (
        s.log.dom().contains(i) ==> append_all(s, entries).log[i] == s.log[i]),
        forall|k: int|
            0 <= k < entries.len() && (#[trigger] entries[k]).log_id.index == i && (forall|j: int|
                k < j < entries.len() ==> (#[trigger] entries[j]).log_id.index != i)
                ==> append_all(s, entries).log.dom().contains(i) && append_all(s, entries).log[i]
                == entries[k],
    decreases entries.len(),
{
    if entries.len() > 0 {
        let init = entries.drop_last();
        law_appended_entries_are_in_the_log(s, init, i);
        assert(entries.last() == entries[entries.len() - 1]);
        if forall|k: int| 0 <= k < entries.len() ==> (#[trigger] entries[k]).log_id.index != i {
            assert forall|k: int| 0 <= k < init.len() implies (#[trigger] init[k]).log_id.index
                != i by {
                assert(init[k] == entries[k]);
            }
        }
        assert forall|k: int|
            0 <= k < entries.len() && (#[trigger] entries[k]).log_id.index == i && (forall|j: int|
                k < j < entries.len() ==> (#[trigger] entries[j]).log_id.index
                    != i) implies append_all(s, entries).log.dom().contains(i) && append_all(
            s,
            entries,
        ).log[i] == entries[k] by {
            if k < init.len() {
                assert(init[k] == entries[k]);
                assert forall|j: int| k < j < init.len() implies (#[trigger] init[j]).log_id.index
                    != i by {
                    assert(init[j] == entries[j]);
                }
            }
        }
    }
}

} // verus!

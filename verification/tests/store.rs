//! The storage of a consensus node.

use pg_ha::raft_log::{EntryPayload, LogEntry, LogId, Membership, RaftLog};
use pg_ha::state_machine::{KvStateMachine, Request, Response};
use pg_ha::store::{LogEnds, MemStore, SnapshotMeta, StoredMembership, Vote};
use pg_ha::wal::WalReplayResult;

fn id(index: u64) -> LogId {
    LogId { term: 1, node_id: 2, index }
}

fn set(key: &str, value: &str) -> Request {
    Request::SetKey {
        key: key.to_string(),
        value: value.to_string(),
        ttl: None,
        prev_exist: None,
        prev_value: None,
        prev_version: None,
        now: 1000,
    }
}

fn normal(index: u64, request: Request) -> LogEntry {
    LogEntry { log_id: id(index), payload: EntryPayload::Normal(request) }
}

fn blank(index: u64) -> LogEntry {
    LogEntry { log_id: id(index), payload: EntryPayload::Blank }
}

#[test]
fn test_log_ends() {
    let mut s = MemStore::new();
    assert_eq!(s.get_log_state(), LogEnds { last_purged_log_id: None, last_log_id: None });
    s.append_to_log(&vec![blank(1), blank(2), blank(3)]);
    assert_eq!(s.get_log_state().last_log_id, Some(id(3)));
    s.delete_conflict_logs_since(id(3));
    assert_eq!(s.get_log_state().last_log_id, Some(id(2)));
    s.purge_logs_upto(id(2));
    assert_eq!(
        s.get_log_state(),
        LogEnds { last_purged_log_id: Some(id(2)), last_log_id: Some(id(2)) }
    );
}

#[test]
fn test_entries_are_applied_in_order() {
    let mut s = MemStore::new();
    let answers = s.apply_to_state_machine(&vec![
        blank(1),
        normal(2, set("/a", "1")),
        normal(3, set("/a", "2")),
        LogEntry {
            log_id: id(4),
            payload: EntryPayload::Membership(Membership { encoded: "three".to_string() }),
        },
        normal(5, Request::Delete { key: "/b".to_string(), prev_value: None, recursive: false }),
    ]);
    assert_eq!(
        answers,
        vec![
            Response::Done { version: 1 },
            Response::Done { version: 2 },
            Response::Done { version: 3 },
            Response::Done { version: 4 },
            Response::NotChanged
        ]
    );
    assert_eq!(s.get("/a").unwrap().value, "2");
    assert_eq!(s.get_prefix("/").len(), 1);
    assert_eq!(s.last_applied_log, Some(id(5)));
    assert_eq!(s.last_membership.log_id, Some(id(4)));
    assert_eq!(s.last_membership.membership.encoded, "three");
}

#[test]
fn test_replicas_agree() {
    let entries = vec![normal(1, set("/a", "1")), normal(2, set("/b", "2"))];
    let mut one = MemStore::new();
    let mut two = MemStore::new();
    assert_eq!(one.apply_to_state_machine(&entries), two.apply_to_state_machine(&entries));
    assert_eq!(one.get("/b").unwrap().value, two.get("/b").unwrap().value);
}

#[test]
fn test_storage_from_disk() {
    let mut log = RaftLog::new();
    log.insert(blank(4));
    let vote = Vote { term: 7, node_id: 1, committed: true };
    let s = MemStore::new_persistent(
        Some((Some(vote), Some(id(3)))),
        KvStateMachine::new(),
        Some(WalReplayResult { log, last_purged: Some(id(3)), valid_len: 0 }),
        Some((
            Some(id(3)),
            StoredMembership { log_id: Some(id(1)), membership: Membership { encoded: "m".to_string() } },
        )),
    );
    assert_eq!(s.vote, Some(vote));
    assert_eq!(s.committed, Some(id(3)));
    assert_eq!(
        s.get_log_state(),
        LogEnds { last_purged_log_id: Some(id(3)), last_log_id: Some(id(4)) }
    );
    assert_eq!(s.last_applied_log, Some(id(3)));
    assert_eq!(s.last_membership.membership.encoded, "m");
}

#[test]
fn test_snapshot() {
    let mut s = MemStore::new();
    assert_eq!(s.snapshot_id(), "-snap");
    let mut sm = KvStateMachine::new();
    sm.apply(&set("/a", "1"), 9);
    let meta = SnapshotMeta {
        last_log_id: Some(id(9)),
        last_membership: StoredMembership {
            log_id: Some(id(1)),
            membership: Membership { encoded: "m".to_string() },
        },
        snapshot_id: "x".to_string(),
    };
    s.install_snapshot(meta, sm, vec![1, 2]);
    assert_eq!(s.get("/a").unwrap().value, "1");
    assert_eq!(s.snapshot_id(), "T1-N2-9-snap");
    assert_eq!(s.snapshot.as_ref().unwrap().data, vec![1, 2]);
    assert_eq!(s.last_membership.log_id, Some(id(1)));
}

#[test]
fn test_log_is_ordered_by_index() {
    let mut log = RaftLog::new();
    for i in [5u64, 1, 3, 3] {
        log.insert(blank(i));
    }
    assert_eq!(log.len(), 3);
    assert_eq!(log.last().unwrap().log_id.index, 5);
    let found: Vec<u64> = log.range(2, 4).iter().map(|e| e.log_id.index).collect();
    assert_eq!(found, vec![3]);
    log.truncate_since(3);
    assert_eq!(log.len(), 1);
    log.purge_upto(1);
    assert!(log.last().is_none());
}

#[test]
fn test_requests_in_messages() {
    assert_eq!(set("/a", "1").describe(), "Set(/a)");
    assert_eq!(Request::ExpireKeys { now: 1 }.describe(), "ExpireKeys");
    assert_eq!(
        Request::Delete { key: "/b".to_string(), prev_value: None, recursive: true }.describe(),
        "Delete(/b)"
    );
}

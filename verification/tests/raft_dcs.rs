//! The keys of the cluster in the replicated store.

use pg_ha::api::is_sync_standby;
use pg_ha::cluster::{HistoryEntry, MemberRole, MemberState, SyncState};
use pg_ha::json::Json;
use pg_ha::raft_dcs::{build_node_url, ForwardReply, RaftDcs};
use pg_ha::state_machine::{KvStateMachine, Request, Response};
use pg_ha::strmap::StringMap;

const NOW: u64 = 1_000_000;

fn dcs(name: &str) -> RaftDcs {
    RaftDcs::new(name.to_string(), "main", "service", 30, 10, false)
}

#[test]
fn forward_to_leader_url_pattern_consistency() {
    let test_cases = vec![
        ("127.0.0.1:8080", "http://127.0.0.1:8080/raft/client-write"),
        ("http://127.0.0.1:8080", "http://127.0.0.1:8080/raft/client-write"),
        ("https://node1.cluster:443", "https://node1.cluster:443/raft/client-write"),
        ("my-node:2380", "http://my-node:2380/raft/client-write"),
    ];

    for (input_addr, expected_url) in test_cases {
        let url = dcs("n1").forward_to_leader(Some(input_addr)).unwrap();
        assert_eq!(url, expected_url, "Failed for input: {input_addr}");
    }
}

#[test]
fn test_urls_with_tls() {
    assert_eq!(build_node_url("n1:2380", true), "https://n1:2380");
    assert_eq!(build_node_url("http://n1:2380", true), "http://n1:2380");
    assert_eq!(
        dcs("n1").forward_to_leader(None).unwrap_err().message(),
        "DCS error: Cannot find Raft leader address"
    );
}

#[test]
fn test_keys() {
    let d = dcs("n1");
    assert_eq!(d.leader_path(), "/service/main/leader");
    assert_eq!(d.members_path(), "/service/main/members/");
    assert_eq!(d.member_path(), "/service/main/members/n1");
    assert_eq!(d.initialize_path(), "/service/main/initialize");
    assert_eq!(d.config_path(), "/service/main/config");
    assert_eq!(d.failover_path(), "/service/main/failover");
    assert_eq!(d.ttl(), 30);
    assert_eq!(d.loop_wait(), 10);
}

#[test]
fn test_lock_is_granted_once_and_read_by_all() {
    let one = dcs("n1");
    let two = dcs("n2");
    let mut store = KvStateMachine::new();
    let first = store.apply(&one.attempt_to_acquire_leader(NOW), 1);
    let second = store.apply(&two.attempt_to_acquire_leader(NOW), 2);
    assert!(RaftDcs::granted(&first));
    assert!(!RaftDcs::granted(&second));
    let leader = two.get_cluster_at(&store, NOW + 29_999).leader.unwrap();
    assert_eq!(leader.name, "n1");
    assert_eq!(leader.version, 1);
    // Only the holder can renew it or give it up.
    assert_eq!(store.apply(&two.update_leader(NOW), 3), Response::NotChanged);
    assert_eq!(store.apply(&two.delete_leader(), 4), Response::NotChanged);
    assert_eq!(store.apply(&one.update_leader(NOW + 10_000), 5), Response::Done { version: 5 });
    assert!(two.get_cluster_at(&store, NOW + 39_999).leader.is_some());
    // It runs out.
    assert!(two.get_cluster_at(&store, NOW + 40_000).leader.is_none());
    assert_eq!(store.apply(&one.delete_leader(), 6), Response::Done { version: 6 });
    assert!(one.get_cluster_at(&store, NOW).leader.is_none());
}

#[test]
fn test_cluster_is_read_back() {
    let d = dcs("n1");
    let mut store = KvStateMachine::new();
    store.apply(&d.touch_member("{}".to_string(), NOW), 1);
    store.apply(&dcs("n2").touch_member("{\"x\":1}".to_string(), NOW), 2);
    assert!(RaftDcs::granted(&store.apply(&d.initialize("712", NOW), 3)));
    assert!(!RaftDcs::granted(&store.apply(&d.initialize("713", NOW), 4)));
    store.apply(&d.set_failover_value("{}", NOW), 5);
    store.apply(&d.set_config_value("{\"ttl\":20}", NOW), 6);
    let read = d.get_cluster_at(&store, NOW);
    assert_eq!(read.initialize.as_deref(), Some("712"));
    assert_eq!(read.failover.as_deref(), Some("{}"));
    let config = read.config.as_ref().unwrap();
    assert_eq!((config.version, config.value.as_str()), (6, "{\"ttl\":20}"));
    assert_eq!(read.members.len(), 2);
    let other = read.members.iter().find(|m| m.name == "n2").unwrap();
    assert_eq!(other.value, "{\"x\":1}");
    assert_eq!(d.get_config_value_at(&store, NOW).as_deref(), Some("{\"ttl\":20}"));
    // Members run out, the rest does not.
    let later = d.get_cluster_at(&store, NOW + 30_000);
    assert!(later.members.is_empty());
    assert!(later.initialize.is_some());
    assert!(d.get_cluster(&store).members.is_empty());

    let mut data = StringMap::new();
    data.insert("ttl".to_string(), Json::Number(20));
    let members = vec![RaftDcs::read_member("n2", None)];
    let cluster = RaftDcs::cluster(read, members, None, data, None, None, vec![]);
    assert_eq!(cluster.config.as_ref().unwrap().version, 6);
    assert_eq!(cluster.members[0].name, "n2");
    assert_eq!(cluster.members[0].state, MemberState::Unknown);
    assert_eq!(cluster.members[0].role, MemberRole::Uninitialized);
}

#[test]
fn test_health_check_is_short_lived() {
    match dcs("n1").health_check(NOW) {
        Request::SetKey { key, value, ttl, .. } => {
            assert_eq!(key, "/service/main/__health_check");
            assert_eq!(value, "ok");
            assert_eq!(ttl, Some(5));
        }
        _ => panic!("expected a write"),
    }
}

#[test]
fn test_failed_writes() {
    assert!(RaftDcs::propose("has to forward request to: Some(2)", true).is_ok());
    assert!(RaftDcs::propose("ForwardToLeader { .. }", true).is_ok());
    assert_eq!(
        RaftDcs::propose("ForwardToLeader { .. }", false).unwrap_err().message(),
        "DCS error: Raft write failed: ForwardToLeader { .. }"
    );
    assert_eq!(
        RaftDcs::propose("quorum lost", true).unwrap_err().message(),
        "DCS error: Raft write failed: quorum lost"
    );
}

#[test]
fn test_forwarded_writes() {
    let done = Response::Done { version: 3 };
    assert_eq!(RaftDcs::forwarded(ForwardReply::Answered(done.clone())).unwrap(), done);
    let text = |r| RaftDcs::forwarded(r).unwrap_err().message();
    assert_eq!(
        text(ForwardReply::NotSent("x".to_string())),
        "DCS error: Forward to leader failed: x"
    );
    assert_eq!(
        text(ForwardReply::Unreadable("x".to_string())),
        "DCS error: Parse leader response: x"
    );
    assert_eq!(
        text(ForwardReply::Rejected("x".to_string())),
        "DCS error: Leader rejected write: x"
    );
}

#[test]
fn test_waiting_for_the_store() {
    assert!(RaftDcs::wait_for_leader(true, true, true).unwrap());
    assert!(!RaftDcs::wait_for_leader(true, false, false).unwrap());
    assert!(!RaftDcs::wait_for_leader(false, false, false).unwrap());
    assert_eq!(
        RaftDcs::wait_for_leader(true, false, true).unwrap_err().message(),
        "Timeout: Raft cluster has no leader"
    );
}

#[test]
fn test_nodes_that_belong_to_a_store() {
    assert!(RaftDcs::is_initialized(Some(1), None));
    assert!(RaftDcs::is_initialized(None, Some(0)));
    assert!(!RaftDcs::is_initialized(None, None));
}

#[test]
fn test_standbys_and_confirming_members_are_read() {
    let d = dcs("n1");
    let mut store = KvStateMachine::new();
    let put = |key: String, value: &str| Request::SetKey {
        key,
        value: value.to_string(),
        ttl: None,
        prev_exist: None,
        prev_value: None,
        prev_version: None,
        now: NOW,
    };
    assert_eq!(d.sync_path(), "/service/main/sync");
    assert_eq!(d.failsafe_path(), "/service/main/failsafe");
    assert_eq!(d.history_path(), "/service/main/history");
    assert!(d.get_cluster_at(&store, NOW).sync.is_none());
    store.apply(&put(d.sync_path(), "{\"leader\":\"n1\"}"), 1);
    store.apply(&put(d.failsafe_path(), "{\"n2\":\"http://n2\"}"), 2);
    store.apply(&put(d.history_path(), "[]"), 3);
    let read = d.get_cluster_at(&store, NOW);
    assert_eq!(read.sync.as_deref(), Some("{\"leader\":\"n1\"}"));
    assert_eq!(read.failsafe.as_deref(), Some("{\"n2\":\"http://n2\"}"));
    assert_eq!(read.history.as_deref(), Some("[]"));

    let sync = SyncState {
        leader: "n1".to_string(),
        sync_standby: Some("n2".to_string()),
        quorum: 0,
    };
    let mut failsafe = StringMap::new();
    failsafe.insert("n2".to_string(), "http://n2".to_string());
    let change = HistoryEntry {
        timeline: 2,
        lsn: 77,
        reason: "failover".to_string(),
        timestamp: None,
    };
    let cluster = RaftDcs::cluster(
        read,
        vec![],
        None,
        StringMap::new(),
        Some(sync),
        Some(failsafe),
        vec![change],
    );
    assert!(is_sync_standby(Some(&cluster), "n2"));
    assert!(!is_sync_standby(Some(&cluster), "n3"));
    assert_eq!(cluster.failsafe.unwrap().get("n2").unwrap(), "http://n2");
    assert_eq!(cluster.history[0].lsn, 77);
}

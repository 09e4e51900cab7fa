//! What the agent answers about its node.

use pg_ha::api::{
    backend_of, config_reply, config_stored, is_sync_standby, send_command, unauthorized, CommandFate,
    ConfigFate, NodeState, BAD_REQUEST, CONFLICT,
    INTERNAL_SERVER_ERROR, OK, SERVICE_UNAVAILABLE, UNAUTHORIZED,
};
use pg_ha::cluster::{Cluster, Member, MemberRole, MemberState, SyncState};
use pg_ha::commands::CommandResponse;
use pg_ha::history::{History, HistoryEventType};
use pg_ha::json::Json;
use pg_ha::proxy::BackendAddr;
use pg_ha::strmap::StringMap;

fn test_state() -> NodeState {
    NodeState::new("node1".to_string(), "test-cluster".to_string(), 30)
}

fn primary() -> NodeState {
    let mut s = test_state();
    s.role = MemberRole::Primary;
    s.state = MemberState::Running;
    s.is_leader = true;
    s.timeline = Some(1);
    s.wal_position = Some(12345);
    s.last_loop_at = Some(std::time::Instant::now());
    s
}

fn replica() -> NodeState {
    let mut s = test_state();
    s.role = MemberRole::Replica;
    s.state = MemberState::Running;
    s.is_leader = false;
    s.timeline = Some(1);
    s.wal_position = Some(12300);
    s.replication_lag = Some(45);
    s.last_loop_at = Some(std::time::Instant::now());
    s
}

fn text<'a>(body: &'a Json, key: &str) -> &'a str {
    body.get(key).unwrap().as_str().unwrap()
}

#[test]
fn test_primary_returns_200_when_leader() {
    assert_eq!(primary().health_primary().status, OK);
}

#[test]
fn test_primary_returns_503_when_replica() {
    assert_eq!(replica().health_primary().status, SERVICE_UNAVAILABLE);
}

#[test]
fn test_replica_returns_200_when_healthy() {
    assert_eq!(replica().health_replica(None).status, OK);
}

#[test]
fn test_replica_returns_503_when_primary() {
    assert_eq!(primary().health_replica(None).status, SERVICE_UNAVAILABLE);
}

#[test]
fn test_replica_lag_check_pass() {
    assert_eq!(replica().health_replica(Some(100)).status, OK); // lag=45 < 100
}

#[test]
fn test_replica_lag_check_fail() {
    let reply = replica().health_replica(Some(10));
    assert_eq!(reply.status, SERVICE_UNAVAILABLE); // lag=45 > 10
    assert_eq!(replica().health_replica(Some(45)).status, OK);
}

#[test]
fn test_health_returns_200_when_running() {
    assert_eq!(replica().health_check().status, OK);
}

#[test]
fn test_health_returns_503_when_stopped() {
    let mut s = test_state();
    s.state = MemberState::Stopped;
    assert_eq!(s.health_check().status, SERVICE_UNAVAILABLE);
}

#[test]
fn test_liveness_returns_200_when_recent() {
    let mut s = test_state();
    s.last_loop_at = Some(std::time::Instant::now());
    assert_eq!(s.liveness(), OK);
}

#[test]
fn test_liveness_returns_503_when_stale() {
    // No last_loop_at set → stale
    assert_eq!(test_state().liveness(), SERVICE_UNAVAILABLE);
}

#[test]
fn test_noloadbalance_excludes_from_replica() {
    let mut s = test_state();
    s.role = MemberRole::Replica;
    s.state = MemberState::Running;
    s.tags.insert("noloadbalance".to_string(), Json::Bool(true));
    s.last_loop_at = Some(std::time::Instant::now());
    assert_eq!(s.health_replica(None).status, SERVICE_UNAVAILABLE);
    assert_eq!(s.health_check().status, OK);
}

#[test]
fn test_metrics_returns_prometheus_format() {
    let mut s = test_state();
    s.role = MemberRole::Primary;
    s.state = MemberState::Running;
    s.timeline = Some(3);
    s.replication_lag = Some(0);
    s.pending_restart = false;
    s.is_paused = false;
    s.failsafe_active = false;
    s.dcs_last_seen = Some(std::time::Instant::now());
    let text = s.metrics("0.250");
    assert!(text.contains("pg_ha_node_role{role=\"primary\"} 1"));
    assert!(text.contains("pg_ha_pg_state{state=\"running\"} 1"));
    assert!(text.contains("pg_ha_replication_lag_bytes 0"));
    assert!(text.contains("pg_ha_timeline 3"));
    assert!(text.contains("pg_ha_failsafe_active 0"));
    assert!(text.contains("pg_ha_pending_restart 0"));
    assert!(text.contains("pg_ha_is_paused 0"));
    assert!(text.contains("pg_ha_dcs_last_seen_seconds"));
    assert!(text.contains("pg_ha_dcs_last_seen_seconds 0.250"));
}

#[test]
fn test_metrics_with_replica_state() {
    let mut s = test_state();
    s.role = MemberRole::Replica;
    s.state = MemberState::Running;
    s.timeline = Some(1);
    s.replication_lag = Some(1024);
    s.pending_restart = true;
    s.is_paused = true;
    s.failsafe_active = true;
    let text = s.metrics("0.000");
    assert!(text.contains("pg_ha_node_role{role=\"replica\"} 1"));
    assert!(text.contains("pg_ha_replication_lag_bytes 1024"));
    assert!(text.contains("pg_ha_failsafe_active 1"));
    assert!(text.contains("pg_ha_pending_restart 1"));
    assert!(text.contains("pg_ha_is_paused 1"));
}

#[test]
fn test_history_returns_empty_array() {
    assert!(History::new().entries().is_empty());
}

#[test]
fn test_history_returns_recorded_events() {
    let mut history = History::new();
    history.record_event(
        HistoryEventType::Failover,
        Some("node1".into()),
        Some("node2".into()),
        "leader lock expired".into(),
    );
    let entries = history.entries();
    assert_eq!(entries.len(), 1);
    assert_eq!(entries[0].event_type.as_str(), "failover");
    assert_eq!(entries[0].old_leader.as_deref(), Some("node1"));
    assert_eq!(entries[0].new_leader.as_deref(), Some("node2"));
    assert_eq!(entries[0].reason, "leader lock expired");
}

#[test]
fn test_a_node_serves_writes_or_reads() {
    for s in [primary(), replica(), test_state()] {
        let writes = s.health_primary().status == OK;
        let reads = s.health_replica(None).status == OK;
        assert!(!(writes && reads));
    }
}

#[test]
fn test_primary_needs_the_lock() {
    let mut s = primary();
    s.is_leader = false;
    assert_eq!(s.health_primary().status, SERVICE_UNAVAILABLE);
    assert!(!s.is_primary_with_lock());
}

#[test]
fn test_standby_leader() {
    let mut s = primary();
    assert_eq!(s.health_standby_leader().status, SERVICE_UNAVAILABLE);
    s.role = MemberRole::StandbyLeader;
    assert!(s.is_standby_leader());
    assert_eq!(s.health_standby_leader().status, OK);
    assert_eq!(s.health_primary().status, SERVICE_UNAVAILABLE);
}

fn synced(names: &str) -> Cluster {
    let mut c = Cluster::empty();
    c.sync_state = Some(SyncState {
        leader: "node2".to_string(),
        sync_standby: Some(names.to_string()),
        quorum: 1,
    });
    c
}

#[test]
fn test_sync_and_async() {
    let named = synced("node3, NODE1");
    let others = synced("node3");
    assert!(is_sync_standby(Some(&named), "node1"));
    assert!(!is_sync_standby(None, "node1"));
    assert_eq!(replica().health_sync(Some(&named)).status, OK);
    assert_eq!(replica().health_sync(Some(&others)).status, SERVICE_UNAVAILABLE);
    assert_eq!(replica().health_sync(None).status, SERVICE_UNAVAILABLE);
    assert_eq!(replica().health_async(Some(&others)).status, OK);
    assert_eq!(replica().health_async(None).status, OK);
    assert_eq!(replica().health_async(Some(&named)).status, SERVICE_UNAVAILABLE);
    assert_eq!(primary().health_sync(Some(&named)).status, SERVICE_UNAVAILABLE);
}

#[test]
fn test_liveness_limit() {
    let s = test_state();
    assert!(s.is_live_at(29_999_999_999));
    assert!(!s.is_live_at(30_000_000_001));
}

#[test]
fn test_status_of_a_node() {
    let body = primary().node_status();
    assert_eq!(text(&body, "name"), "node1");
    assert_eq!(text(&body, "scope"), "test-cluster");
    assert_eq!(body.get("timeline").unwrap().as_u64(), Some(1));
    assert_eq!(text(&body, "role"), "Primary");
    assert_eq!(text(&body, "state"), "Running");
    assert_eq!(body.get("paused").unwrap().as_bool(), Some(false));
    assert!(matches!(body.get("replication_lag"), Some(Json::Null)));
}

#[test]
fn test_answers_to_operators() {
    let reply = send_command(&CommandFate::NoChannel);
    assert_eq!(reply.status, SERVICE_UNAVAILABLE);
    assert_eq!(text(&reply.body, "message"), "Command channel not available");
    let reply = send_command(&CommandFate::NotSent);
    assert_eq!(reply.status, INTERNAL_SERVER_ERROR);
    assert_eq!(text(&reply.body, "message"), "Failed to send command to HA loop");
    let reply = send_command(&CommandFate::NoAnswer);
    assert_eq!(reply.status, INTERNAL_SERVER_ERROR);
    assert_eq!(text(&reply.body, "message"), "No response from HA loop");
    let reply = send_command(&CommandFate::Answered(CommandResponse::accepted("yes")));
    assert_eq!((reply.status, text(&reply.body, "status")), (OK, "accepted"));
    let reply = send_command(&CommandFate::Answered(CommandResponse::rejected("no")));
    assert_eq!((reply.status, text(&reply.body, "status")), (CONFLICT, "rejected"));
    let reply = send_command(&CommandFate::Answered(CommandResponse::error("bad")));
    assert_eq!((reply.status, text(&reply.body, "status")), (INTERNAL_SERVER_ERROR, "error"));
    assert_eq!(text(&reply.body, "message"), "bad");
}

#[test]
fn test_config_requests() {
    let e = || "x".to_string();
    let cases = vec![
        (ConfigFate::NoStore, SERVICE_UNAVAILABLE, "DCS not available"),
        (ConfigFate::Unread(e()), INTERNAL_SERVER_ERROR, "Failed to read config from DCS: x"),
        (ConfigFate::UnreadForPatch(e()), INTERNAL_SERVER_ERROR, "Failed to read current config: x"),
        (ConfigFate::StoredInvalid(e()), INTERNAL_SERVER_ERROR, "Invalid config in DCS: x"),
        (ConfigFate::Invalid(e()), BAD_REQUEST, "Invalid config: x"),
        (ConfigFate::InvalidPatch(e()), BAD_REQUEST, "Invalid patch: x"),
        (config_stored(Ok(false), Json::Null), CONFLICT, "Failed to write config to DCS"),
        (config_stored(Err(e()), Json::Null), INTERNAL_SERVER_ERROR, "DCS write failed: x"),
    ];
    for (fate, status, message) in cases {
        let reply = config_reply(fate);
        assert_eq!((reply.status, text(&reply.body, "error")), (status, message));
    }
    let reply = config_reply(config_stored(Ok(true), Json::Number(7)));
    assert_eq!((reply.status, reply.body.as_u64()), (OK, Some(7)));
    let reply = unauthorized();
    assert_eq!((reply.status, text(&reply.body, "error")), (UNAUTHORIZED, "Unauthorized"));
}

#[test]
fn test_members_as_backends() {
    let mut m = Member {
        name: "node2".to_string(),
        conn_url: "host=db2 port=5433 dbname=postgres".to_string(),
        api_url: "http://db2:9000".to_string(),
        state: MemberState::Running,
        role: MemberRole::Primary,
        wal_position: None,
        timeline: None,
        tags: StringMap::new(),
        version: None,
    };
    let addr = || BackendAddr { ip: "10.0.0.2".to_string(), port: 5433 };
    let b = backend_of(&m, addr(), 8008);
    assert!(b.is_primary && b.is_healthy);
    assert_eq!(b.api_url, "http://db2:9000");
    m.api_url = String::new();
    m.state = MemberState::Stopped;
    m.role = MemberRole::Replica;
    let b = backend_of(&m, addr(), 8008);
    assert!(!b.is_primary && !b.is_healthy);
    assert_eq!(b.api_url, "http://db2:8008");
    m.conn_url = String::new();
    assert_eq!(backend_of(&m, addr(), 8008).api_url, "http://10.0.0.2:8008");
}

#[test]
fn test_status_codes() {
    assert_eq!((BAD_REQUEST, UNAUTHORIZED), (400, 401));
    assert_eq!((OK, CONFLICT, INTERNAL_SERVER_ERROR, SERVICE_UNAVAILABLE), (200, 409, 500, 503));
}

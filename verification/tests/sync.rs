//! Synchronous standbys.

use pg_ha::cluster::{Member, MemberRole, MemberState};
use pg_ha::json::Json;
use pg_ha::strmap::StringMap;
use pg_ha::sync::{SyncManager, SyncMode};

fn make_member(name: &str, priority: u32) -> Member {
    let mut tags = StringMap::new();
    if priority > 0 {
        tags.insert("sync_priority".to_string(), Json::Number(priority as u64));
    }
    Member {
        name: name.to_string(),
        conn_url: String::new(),
        api_url: String::new(),
        state: MemberState::Running,
        role: MemberRole::Replica,
        wal_position: Some(1000),
        timeline: Some(1),
        tags,
        version: None,
    }
}

fn make_nosync_member(name: &str) -> Member {
    Member {
        name: name.to_string(),
        conn_url: String::new(),
        api_url: String::new(),
        state: MemberState::Running,
        role: MemberRole::Replica,
        wal_position: Some(1000),
        timeline: Some(1),
        tags: {
            let mut tags = StringMap::new();
            tags.insert("nosync".to_string(), Json::Bool(true));
            tags
        },
        version: None,
    }
}

#[test]
fn test_sync_off() {
    let mgr = SyncManager::new(SyncMode::Off, 1, false);
    let members = vec![make_member("n1", 0)];
    assert_eq!(mgr.compute_sync_standby_names(&members, "primary"), None);
}

#[test]
fn test_priority_mode_single() {
    let mgr = SyncManager::new(SyncMode::Priority, 1, false);
    let members = vec![make_member("replica1", 0), make_member("replica2", 0)];
    let result = mgr.compute_sync_standby_names(&members, "primary").unwrap();
    assert!(result.starts_with("FIRST 1"));
    assert!(result.contains("replica1")); // alphabetical first
}

#[test]
fn test_priority_mode_respects_sync_priority() {
    let mgr = SyncManager::new(SyncMode::Priority, 1, false);
    let members = vec![make_member("replica1", 1), make_member("replica2", 10)];
    let result = mgr.compute_sync_standby_names(&members, "primary").unwrap();
    // replica2 has higher priority
    assert!(result.contains("replica2"));
    assert!(!result.contains("replica1"));
}

#[test]
fn test_quorum_mode() {
    let mgr = SyncManager::new(SyncMode::Quorum, 2, false);
    let members = vec![
        make_member("r1", 0),
        make_member("r2", 0),
        make_member("r3", 0),
    ];
    let result = mgr.compute_sync_standby_names(&members, "primary").unwrap();
    assert!(result.starts_with("ANY 2"));
}

#[test]
fn test_nosync_excluded() {
    let mgr = SyncManager::new(SyncMode::Priority, 1, false);
    let members = vec![make_nosync_member("r1"), make_member("r2", 0)];
    let result = mgr.compute_sync_standby_names(&members, "primary").unwrap();
    assert!(result.contains("r2"));
    assert!(!result.contains("r1"));
}

#[test]
fn test_strict_mode_no_standbys() {
    let mgr = SyncManager::new(SyncMode::Priority, 1, true);
    let members: Vec<Member> = vec![]; // no replicas
    let result = mgr.compute_sync_standby_names(&members, "primary").unwrap();
    assert_eq!(result, "*"); // blocks writes
}

#[test]
fn test_non_strict_no_standbys() {
    let mgr = SyncManager::new(SyncMode::Priority, 1, false);
    let members: Vec<Member> = vec![];
    let result = mgr.compute_sync_standby_names(&members, "primary").unwrap();
    assert_eq!(result, ""); // allows async operation
}

#[test]
fn test_excludes_self() {
    let mgr = SyncManager::new(SyncMode::Priority, 1, false);
    let members = vec![make_member("primary", 10), make_member("replica1", 5)];
    let result = mgr.compute_sync_standby_names(&members, "primary").unwrap();
    assert!(!result.contains("primary"));
    assert!(result.contains("replica1"));
}

#[test]
fn test_names_are_in_order_of_priority() {
    let mgr = SyncManager::new(SyncMode::Quorum, 3, false);
    let members = vec![
        make_member("b", 1),
        make_member("z", 7),
        make_member("a", 1),
        make_member("c", 7),
    ];
    assert_eq!(
        mgr.compute_sync_standby_names(&members, "primary").unwrap(),
        "ANY 3 (c,z,a)"
    );
    let all = SyncManager::new(SyncMode::Priority, 9, false);
    assert_eq!(
        all.compute_sync_standby_names(&members, "a").unwrap(),
        "FIRST 9 (c,z,b)"
    );
}

#[test]
fn test_at_least_one_standby() {
    let mut mgr = SyncManager::new(SyncMode::Priority, 0, false);
    mgr.set_max_lag(Some(1));
    let members = vec![make_member("r1", 0)];
    assert_eq!(
        mgr.compute_sync_standby_names(&members, "primary").unwrap(),
        "FIRST 1 (r1)"
    );
}

#[test]
fn test_only_running_replicas_count() {
    let mgr = SyncManager::new(SyncMode::Priority, 2, true);
    let mut down = make_member("r1", 0);
    down.state = MemberState::Stopped;
    let mut leader = make_member("r2", 0);
    leader.role = MemberRole::Primary;
    assert_eq!(mgr.compute_sync_standby_names(&[down, leader], "me").unwrap(), "*");
}

fn member_at(name: &str, role: MemberRole, wal_position: Option<u64>) -> Member {
    let mut m = make_member(name, 0);
    m.role = role;
    m.wal_position = wal_position;
    m
}

#[test]
fn test_lagging_standby_is_left_out() {
    let mut mgr = SyncManager::new(SyncMode::Priority, 2, false);
    mgr.set_max_lag(Some(100));
    let members = vec![
        member_at("primary", MemberRole::Primary, Some(2000)),
        member_at("r1", MemberRole::Replica, Some(1000)),
        member_at("r2", MemberRole::Replica, Some(2000)),
    ];
    assert_eq!(
        mgr.compute_sync_standby_names(&members, "primary"),
        Some("FIRST 2 (r2)".to_string())
    );
    mgr.set_max_lag(Some(1000));
    assert_eq!(
        mgr.compute_sync_standby_names(&members, "primary"),
        Some("FIRST 2 (r1,r2)".to_string())
    );
    mgr.set_max_lag(None);
    assert_eq!(
        mgr.compute_sync_standby_names(&members, "primary"),
        Some("FIRST 2 (r1,r2)".to_string())
    );
}

#[test]
fn test_standbys_are_held_against_the_highest_position() {
    let mut mgr = SyncManager::new(SyncMode::Quorum, 3, false);
    mgr.set_max_lag(Some(10));
    // The position of this node is not known; one whose lag is not known stays.
    let members = vec![
        member_at("primary", MemberRole::Primary, None),
        member_at("r1", MemberRole::Replica, Some(489)),
        member_at("r2", MemberRole::Replica, Some(490)),
        member_at("r3", MemberRole::Replica, None),
        member_at("r4", MemberRole::Replica, Some(500)),
    ];
    assert_eq!(
        mgr.compute_sync_standby_names(&members, "primary"),
        Some("ANY 3 (r2,r3,r4)".to_string())
    );
    // One that is ahead of this node does not lag.
    let ahead = vec![
        member_at("primary", MemberRole::Primary, Some(5)),
        member_at("r1", MemberRole::Replica, Some(900)),
    ];
    assert_eq!(
        mgr.compute_sync_standby_names(&ahead, "primary"),
        Some("ANY 3 (r1)".to_string())
    );
}

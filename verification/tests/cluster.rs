//! The state of the cluster.

use pg_ha::cluster::{Cluster, Failover, Leader, Member, MemberRole, MemberState, SyncState};
use pg_ha::json::Json;
use pg_ha::strmap::StringMap;

fn tags(list: &[(&str, Json)]) -> StringMap<Json> {
    let mut m = StringMap::new();
    for (k, v) in list {
        m.insert(k.to_string(), v.clone());
    }
    m
}

#[test]
fn test_cluster_is_unlocked() {
    let cluster = Cluster::empty();
    assert!(cluster.is_unlocked());

    let cluster = Cluster {
        leader: Some(Leader {
            name: "node1".to_string(),
            version: 1,
        }),
        ..Default::default()
    };
    assert!(!cluster.is_unlocked());
}

#[test]
fn test_sync_state_matches() {
    let sync = SyncState {
        leader: "node1".to_string(),
        sync_standby: Some("node2,node3".to_string()),
        quorum: 0,
    };
    assert!(sync.matches("node2"));
    assert!(sync.matches("NODE3")); // case-insensitive
    assert!(!sync.matches("node1"));
    assert!(!sync.matches("node4"));
}

#[test]
fn test_member_tag_helpers() {
    let member = Member {
        name: "n1".to_string(),
        conn_url: String::new(),
        api_url: String::new(),
        state: MemberState::Running,
        role: MemberRole::Replica,
        wal_position: None,
        timeline: None,
        tags: tags(&[
            ("nofailover", Json::Bool(true)),
            ("failover_priority", Json::Number(0)),
        ]),
        version: None,
    };
    assert!(member.is_nofailover());
    assert_eq!(member.failover_priority(), 0);
    assert!(!member.is_noloadbalance());
}

#[test]
fn test_cluster_get_clone_member() {
    let cluster = Cluster {
        leader: Some(Leader {
            name: "node1".to_string(),
            version: 1,
        }),
        members: vec![
            Member {
                name: "node1".to_string(),
                conn_url: "postgres://node1".to_string(),
                api_url: String::new(),
                state: MemberState::Running,
                role: MemberRole::Primary,
                wal_position: None,
                timeline: None,
                tags: StringMap::new(),
                version: None,
            },
            Member {
                name: "node2".to_string(),
                conn_url: "postgres://node2".to_string(),
                api_url: String::new(),
                state: MemberState::Running,
                role: MemberRole::Replica,
                wal_position: None,
                timeline: None,
                tags: tags(&[("clonefrom", Json::Bool(true))]),
                version: None,
            },
        ],
        ..Default::default()
    };

    // Should prefer node2 (has clonefrom tag)
    let source = cluster.get_clone_member("node3").unwrap();
    assert_eq!(source.name, "node2");
}

#[test]
fn test_member_that_must_not_be_cloned_is_no_source() {
    let member = |name: &str, t: &[(&str, Json)]| Member {
        name: name.to_string(),
        conn_url: String::new(),
        api_url: String::new(),
        state: MemberState::Running,
        role: MemberRole::Replica,
        wal_position: None,
        timeline: None,
        tags: tags(t),
        version: None,
    };
    let mut cluster = Cluster::empty();
    cluster.leader = Some(Leader { name: "node1".to_string(), version: 1 });
    cluster.members = vec![
        member("node1", &[]),
        member("node2", &[("clonefrom", Json::Bool(true)), ("noclone", Json::Bool(true))]),
    ];
    assert_eq!(cluster.get_clone_member("node3").unwrap().name, "node1");
    cluster.members[0].tags = tags(&[("noclone", Json::Bool(true))]);
    assert!(cluster.get_clone_member("node3").is_none());
}

#[test]
fn test_switchover_names_a_leader() {
    let failover = Failover {
        leader: None,
        candidate: Some("node2".to_string()),
        scheduled_at: None,
    };
    assert!(!failover.is_switchover());
    assert!(Failover { leader: Some("node1".to_string()), ..failover }.is_switchover());
}

#[test]
fn test_sync_standby_names_are_trimmed() {
    let sync = SyncState {
        leader: "node1".to_string(),
        sync_standby: Some(" node2 ,, node3".to_string()),
        quorum: 0,
    };
    assert_eq!(sync.sync_standby_names(), vec!["node2", "node3"]);
    assert!(!sync.is_empty());
}

//! Which member a replica replicates from.

use pg_ha::cascading::CascadeManager;
use pg_ha::cluster::{Cluster, Leader, Member, MemberRole, MemberState};
use pg_ha::json::Json;
use pg_ha::strmap::StringMap;

fn tags(list: &[(&str, Json)]) -> StringMap<Json> {
    let mut m = StringMap::new();
    for (k, v) in list {
        m.insert(k.to_string(), v.clone());
    }
    m
}

fn make_member(name: &str, state: MemberState, role: MemberRole, tags: StringMap<Json>) -> Member {
    Member {
        name: name.to_string(),
        conn_url: format!("host={name} port=5432 dbname=postgres user=postgres"),
        api_url: format!("http://{name}:8008"),
        state,
        role,
        wal_position: Some(1000),
        timeline: Some(1),
        tags,
        version: None,
    }
}

fn make_cluster_3_nodes() -> Cluster {
    Cluster {
        leader: Some(Leader {
            name: "node1".to_string(),
            version: 1,
        }),
        members: vec![
            make_member("node1", MemberState::Running, MemberRole::Primary, StringMap::new()),
            make_member("node2", MemberState::Running, MemberRole::Replica, StringMap::new()),
            make_member(
                "node3",
                MemberState::Running,
                MemberRole::Replica,
                tags(&[("replicatefrom", Json::Text("node2".to_string()))]),
            ),
        ],
        ..Default::default()
    }
}

#[test]
fn test_select_upstream_with_replicatefrom_tag() {
    let cluster = make_cluster_3_nodes();

    // node3 has replicatefrom=node2, should select node2
    let upstream = CascadeManager::select_upstream("node3", Some("node2"), &cluster);
    assert!(upstream.is_some());
    assert_eq!(upstream.unwrap().name, "node2");
}

#[test]
fn test_select_upstream_fallback_to_primary() {
    let mut cluster = make_cluster_3_nodes();
    // Make node2 unhealthy
    cluster.members[1].state = MemberState::Stopped;

    // node3 has replicatefrom=node2 but node2 is stopped, should fall back to node1 (primary)
    let upstream = CascadeManager::select_upstream("node3", Some("node2"), &cluster);
    assert!(upstream.is_some());
    assert_eq!(upstream.unwrap().name, "node1");
}

#[test]
fn test_select_upstream_source_not_found() {
    let cluster = make_cluster_3_nodes();

    // replicatefrom points to non-existent node
    let upstream = CascadeManager::select_upstream("node3", Some("node99"), &cluster);
    assert!(upstream.is_some());
    assert_eq!(upstream.unwrap().name, "node1"); // falls back to primary
}

#[test]
fn test_select_upstream_self_reference() {
    let cluster = make_cluster_3_nodes();

    // replicatefrom points to self — should fall back to primary
    let upstream = CascadeManager::select_upstream("node3", Some("node3"), &cluster);
    assert!(upstream.is_some());
    assert_eq!(upstream.unwrap().name, "node1");
}

#[test]
fn test_select_upstream_no_replicatefrom() {
    let cluster = make_cluster_3_nodes();

    // No replicatefrom — should use primary
    let upstream = CascadeManager::select_upstream("node2", None, &cluster);
    assert!(upstream.is_some());
    assert_eq!(upstream.unwrap().name, "node1");
}

#[test]
fn test_select_upstream_no_primary() {
    let cluster = Cluster {
        leader: None,
        members: vec![
            make_member("node1", MemberState::Running, MemberRole::Replica, StringMap::new()),
            make_member("node2", MemberState::Running, MemberRole::Replica, StringMap::new()),
        ],
        ..Default::default()
    };

    // No leader — no upstream available
    let upstream = CascadeManager::select_upstream("node2", None, &cluster);
    assert!(upstream.is_none());
}

#[test]
fn test_build_primary_conninfo() {
    let member = make_member("node2", MemberState::Running, MemberRole::Replica, StringMap::new());

    let conninfo = CascadeManager::build_primary_conninfo(
        &member,
        "replicator",
        Some("secret"),
        "node3",
    );

    assert!(conninfo.contains("host=node2"));
    assert!(conninfo.contains("port=5432"));
    assert!(conninfo.contains("user=replicator"));
    assert!(conninfo.contains("password=secret"));
    assert!(conninfo.contains("application_name=node3"));
}

#[test]
fn test_build_primary_conninfo_no_password() {
    let member = make_member("node1", MemberState::Running, MemberRole::Primary, StringMap::new());

    let conninfo = CascadeManager::build_primary_conninfo(
        &member,
        "replicator",
        None,
        "node2",
    );

    assert!(conninfo.contains("host=node1"));
    assert!(conninfo.contains("port=5432"));
    assert!(conninfo.contains("user=replicator"));
    assert!(!conninfo.contains("password="));
    assert!(conninfo.contains("application_name=node2"));
}

#[test]
fn test_is_cascade_source_healthy_running() {
    let cluster = make_cluster_3_nodes();
    assert!(CascadeManager::is_cascade_source_healthy("node2", &cluster));
}

#[test]
fn test_is_cascade_source_healthy_stopped() {
    let mut cluster = make_cluster_3_nodes();
    cluster.members[1].state = MemberState::Stopped;
    assert!(!CascadeManager::is_cascade_source_healthy("node2", &cluster));
}

#[test]
fn test_is_cascade_source_healthy_not_found() {
    let cluster = make_cluster_3_nodes();
    assert!(!CascadeManager::is_cascade_source_healthy("node99", &cluster));
}

#[test]
fn test_build_cascade_topology() {
    let cluster = make_cluster_3_nodes();
    let topology = CascadeManager::build_cascade_topology(&cluster);

    assert_eq!(topology.len(), 3);

    // node1 is primary — no upstream
    let node1 = topology.iter().find(|n| n.name == "node1").unwrap();
    assert_eq!(node1.role, "primary");
    assert_eq!(node1.upstream, None);
    assert_eq!(node1.replicatefrom, None);

    // node2 is replica — upstream is primary (node1)
    let node2 = topology.iter().find(|n| n.name == "node2").unwrap();
    assert_eq!(node2.role, "replica");
    assert_eq!(node2.upstream, Some("node1".to_string()));
    assert_eq!(node2.replicatefrom, None);

    // node3 is replica with replicatefrom=node2 — upstream is node2
    let node3 = topology.iter().find(|n| n.name == "node3").unwrap();
    assert_eq!(node3.role, "replica");
    assert_eq!(node3.upstream, Some("node2".to_string()));
    assert_eq!(node3.replicatefrom, Some("node2".to_string()));
}

#[test]
fn test_build_cascade_topology_unhealthy_source() {
    let mut cluster = make_cluster_3_nodes();
    // Make node2 unhealthy
    cluster.members[1].state = MemberState::Stopped;

    let topology = CascadeManager::build_cascade_topology(&cluster);

    // node3 has replicatefrom=node2 but node2 is stopped — falls back to primary
    let node3 = topology.iter().find(|n| n.name == "node3").unwrap();
    assert_eq!(node3.upstream, Some("node1".to_string()));
    assert_eq!(node3.replicatefrom, Some("node2".to_string()));
}

#[test]
fn test_parse_host_port_from_conn_url() {
    let (host, port) = CascadeManager::parse_host_port_from_conn_url(
        "host=10.0.0.5 port=5433 dbname=postgres user=postgres"
    );
    assert_eq!(host, "10.0.0.5");
    assert_eq!(port, 5433);
}

#[test]
fn test_parse_host_port_from_conn_url_defaults() {
    let (host, port) = CascadeManager::parse_host_port_from_conn_url("dbname=postgres");
    assert_eq!(host, "127.0.0.1");
    assert_eq!(port, 5432);
}

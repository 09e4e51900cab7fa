//! Clusters that follow a remote primary.

use pg_ha::dynamic_config::GlobalConfig;
use pg_ha::standby_cluster::{
    default_port, CascadeOrder, CascadePhase, StandbyCluster, StandbyClusterConfig,
};

#[test]
fn test_primary_conninfo_generation() {
    let config = StandbyClusterConfig {
        host: "primary.example.com".to_string(),
        port: 5433,
        primary_slot_name: Some("slot1".to_string()),
        restore_command: None,
        create_replica_methods: vec![],
    };

    let conninfo = config.primary_conninfo("replicator", Some("secret"));
    assert!(conninfo.contains("host=primary.example.com"));
    assert!(conninfo.contains("port=5433"));
    assert!(conninfo.contains("user=replicator"));
    assert!(conninfo.contains("password=secret"));
    assert!(conninfo.contains("application_name=standby_cluster"));
}

#[test]
fn test_primary_conninfo_no_password() {
    let config = StandbyClusterConfig {
        host: "10.0.0.1".to_string(),
        port: 5432,
        primary_slot_name: None,
        restore_command: None,
        create_replica_methods: vec![],
    };

    let conninfo = config.primary_conninfo("replicator", None);
    assert!(conninfo.contains("host=10.0.0.1"));
    assert!(conninfo.contains("port=5432"));
    assert!(conninfo.contains("user=replicator"));
    assert!(!conninfo.contains("password="));
}

#[test]
fn test_basebackup_connstr() {
    let config = StandbyClusterConfig {
        host: "primary.example.com".to_string(),
        port: 5432,
        primary_slot_name: None,
        restore_command: None,
        create_replica_methods: vec![],
    };

    let connstr = config.basebackup_connstr("replicator", Some("pass123"));
    assert!(connstr.contains("host=primary.example.com"));
    assert!(connstr.contains("port=5432"));
    assert!(connstr.contains("user=replicator"));
    assert!(connstr.contains("password=pass123"));
    assert!(connstr.contains("dbname=postgres"));
}

#[test]
fn test_is_standby_cluster_true() {
    let config = GlobalConfig {
        standby_cluster: Some(StandbyClusterConfig {
            host: "remote.example.com".to_string(),
            port: 5432,
            primary_slot_name: None,
            restore_command: None,
            create_replica_methods: vec![],
        }),
        ..Default::default()
    };

    assert!(StandbyCluster::is_standby_cluster(&config));
}

#[test]
fn test_is_standby_cluster_false() {
    let config = GlobalConfig::default();
    assert!(!StandbyCluster::is_standby_cluster(&config));
}

#[test]
fn test_clone_source_connstr() {
    let standby_config = StandbyClusterConfig {
        host: "remote-primary.dc1.com".to_string(),
        port: 5433,
        primary_slot_name: Some("standby_slot".to_string()),
        restore_command: None,
        create_replica_methods: vec!["basebackup".to_string()],
    };

    let connstr =
        StandbyCluster::clone_source_connstr(&standby_config, "replicator", Some("replpass"));
    assert!(connstr.contains("host=remote-primary.dc1.com"));
    assert!(connstr.contains("port=5433"));
    assert!(connstr.contains("user=replicator"));
    assert!(connstr.contains("password=replpass"));
}

fn remote(host: &str, port: u16) -> StandbyClusterConfig {
    StandbyClusterConfig {
        host: host.to_string(),
        port,
        primary_slot_name: None,
        restore_command: None,
        create_replica_methods: vec![],
    }
}

#[test]
fn test_standby_leader_must_not_be_primary() {
    assert_eq!(default_port(), 5432);
    let config = remote("remote", 5433);
    let conninfo = config.primary_conninfo("replicator", Some("secret"));
    let follows = |running, is_primary| {
        StandbyCluster::enforce_follow_remote_member(&config, running, is_primary, Some(&conninfo))
    };
    assert!(follows(true, false));
    assert!(!follows(true, true));
    assert!(!follows(false, false));
}

#[test]
fn test_standby_leader_must_point_to_the_remote() {
    let config = remote("remote", 5433);
    let follows = |conninfo: Option<&str>| {
        StandbyCluster::enforce_follow_remote_member(&config, true, false, conninfo)
    };
    assert!(follows(Some("user=r host=remote port=5433")));
    assert!(!follows(Some("host=other port=5433 user=r")));
    assert!(!follows(Some("host=remote port=5432 user=r")));
    assert!(!follows(Some("host=remote user=r")));
    assert!(!follows(Some("")));
    assert!(!follows(None));
    // The port may be left out where it is the usual one.
    let usual = remote("remote", 5432);
    let conninfo = Some("host=remote user=r");
    assert!(StandbyCluster::enforce_follow_remote_member(&usual, true, false, conninfo));
}

#[test]
fn test_connection_to_the_remote_is_exact() {
    let config = StandbyClusterConfig {
        host: "h".to_string(),
        port: 1,
        primary_slot_name: None,
        restore_command: None,
        create_replica_methods: vec![],
    };
    assert_eq!(
        config.primary_conninfo("u", Some("p")),
        "host=h port=1 user=u application_name=standby_cluster password=p"
    );
    assert_eq!(config.basebackup_connstr("u", None), "host=h port=1 user=u dbname=postgres");
    let global = GlobalConfig { standby_cluster: Some(config), ..Default::default() };
    assert_eq!(StandbyCluster::get_config(&global).unwrap().host, "h");
}

#[test]
fn test_cascade_promote_removes_standby_config() {
    let config = GlobalConfig {
        loop_wait: Some(10),
        ttl: Some(30),
        standby_cluster: Some(StandbyClusterConfig {
            host: "remote.example.com".to_string(),
            port: 5432,
            primary_slot_name: None,
            restore_command: None,
            create_replica_methods: vec![],
        }),
        ..Default::default()
    };
    let (phase, order) = StandbyCluster::cascade_promote(CascadePhase::Asked, &config, Ok(()));
    assert_eq!(phase, CascadePhase::Storing);
    match order {
        CascadeOrder::StoreConfig(stored) => {
            assert!(stored.standby_cluster.is_none());
            assert_eq!(stored.loop_wait, Some(10));
            assert_eq!(stored.ttl, Some(30));
        }
        other => panic!("not stored: {other:?}"),
    }
    let (_, order) = StandbyCluster::cascade_promote(phase, &config, Err("no".to_string()));
    assert!(matches!(order, CascadeOrder::Finish(Err(e)) if e == "no"));
}

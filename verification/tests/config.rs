//! The configuration of a node.

use pg_ha::config::{
    default_dbname, default_failover_priority, default_loop_wait, default_namespace,
    default_pg_listen, default_pg_port, default_retry_timeout, default_ttl, Config,
    ConnectionParams, EnvOverrides, PostgresqlConfig, ProxyConfig, RaftConfig, RestApiConfig, Tags,
    WatchdogConfig, WatchdogMode,
};
use pg_ha::error::Error;
use pg_ha::strmap::StringMap;

fn user(name: &str) -> ConnectionParams {
    ConnectionParams {
        username: name.to_string(),
        password: None,
        dbname: default_dbname(),
    }
}

fn minimal() -> Config {
    Config {
        name: "node1".to_string(),
        scope: "my-cluster".to_string(),
        namespace: default_namespace(),
        loop_wait: default_loop_wait(),
        ttl: default_ttl(),
        retry_timeout: default_retry_timeout(),
        postgresql: PostgresqlConfig {
            data_dir: "/tmp/pgdata".to_string(),
            bin_dir: "/usr/bin".to_string(),
            listen: default_pg_listen(),
            port: default_pg_port(),
            superuser: user("postgres"),
            replication: user("replicator"),
            parameters: StringMap::new(),
        },
        restapi: RestApiConfig {
            listen: "0.0.0.0".to_string(),
            port: 8008,
            username: None,
            password: None,
        },
        raft: RaftConfig {
            self_addr: "127.0.0.1:2380".to_string(),
            partner_addrs: vec!["127.0.0.2:2380".to_string(), "127.0.0.3:2380".to_string()],
            data_dir: None,
            node_id: None,
        },
        proxy: ProxyConfig {
            rw_listen: "0.0.0.0".to_string(),
            rw_port: 6432,
            ro_listen: "0.0.0.0".to_string(),
            ro_port: 6433,
        },
        watchdog: WatchdogConfig::default(),
        tags: Tags::default(),
        bootstrap: None,
    }
}

fn no_overrides() -> EnvOverrides {
    EnvOverrides {
        name: None,
        scope: None,
        loop_wait: None,
        ttl: None,
        retry_timeout: None,
        postgresql_port: None,
        postgresql_listen: None,
        restapi_port: None,
        raft_self_addr: None,
    }
}

#[test]
fn test_defaults_make_a_valid_config() {
    let config = minimal();
    assert_eq!(config.loop_wait, 10); // default
    assert_eq!(config.ttl, 30); // default
    assert_eq!(config.postgresql.port, 5432); // default
    assert!(config.validate().is_ok());
}

#[test]
fn test_sample_is_valid() {
    let config = Config::sample();
    assert_eq!(config.name, "node1");
    assert_eq!(config.raft.partner_addrs.len(), 2);
    assert_eq!(config.postgresql.parameters.get("wal_level").unwrap(), "replica");
    assert!(config.validate().is_ok());
}

#[test]
fn test_validation_empty_name() {
    let mut config = minimal();
    config.name = String::new();
    let result = config.validate();
    assert!(result.is_err());
    assert!(result.unwrap_err().message().contains("name"));
}

#[test]
fn test_validation_ttl_must_exceed_loop_wait() {
    let mut config = minimal();
    config.ttl = 5;
    config.loop_wait = 10;
    let result = config.validate();
    assert!(result.is_err());
    let error = result.unwrap_err();
    assert!(error.message().contains("ttl"));
    assert_eq!(
        error.message(),
        "Configuration error: ttl (5) must be greater than loop_wait (10)"
    );
}

#[test]
fn test_validation_empty_raft_partners() {
    let mut config = minimal();
    config.raft.partner_addrs = vec![];
    let result = config.validate();
    assert!(result.is_err());
    assert!(result.unwrap_err().message().contains("partner_addrs"));
}

#[test]
fn test_validation_of_the_other_fields() {
    let mut config = Config::sample();
    config.scope = String::new();
    assert_eq!(
        config.validate().unwrap_err().message(),
        "Configuration error: 'scope' is required and cannot be empty"
    );
    let mut config = Config::sample();
    config.raft.self_addr = String::new();
    assert_eq!(
        config.validate().unwrap_err().message(),
        "Configuration error: raft.self_addr is required"
    );
    let mut config = Config::sample();
    config.ttl = config.loop_wait + 1;
    assert!(config.validate().is_ok());
}

#[test]
fn test_tags_defaults() {
    let tags = minimal().tags;
    assert!(!tags.nofailover);
    assert!(!tags.noloadbalance);
    assert!(!tags.nosync);
    assert_eq!(tags.failover_priority, 1);
    assert_eq!(tags.replicatefrom, None);
    assert_eq!(default_failover_priority(), 1);
}

#[test]
fn test_watchdog_defaults() {
    let watchdog = minimal().watchdog;
    assert_eq!(watchdog.mode, WatchdogMode::Off);
    assert_eq!(watchdog.device, "/dev/watchdog");
    assert_eq!(watchdog.safety_margin, 5);
}

#[test]
fn test_environment_overrides() {
    let mut config = Config::sample();
    let env = EnvOverrides {
        name: Some("node9".to_string()),
        ttl: Some("45".to_string()),
        loop_wait: Some("soon".to_string()),
        postgresql_port: Some("70000".to_string()),
        restapi_port: Some("8009".to_string()),
        raft_self_addr: Some("node9:2380".to_string()),
        ..no_overrides()
    };
    config.apply_env_overrides(&env);
    assert_eq!(config.name, "node9");
    assert_eq!(config.scope, "pg-cluster");
    assert_eq!(config.ttl, 45);
    assert_eq!(config.loop_wait, 10); // not a number
    assert_eq!(config.postgresql.port, 5432); // no port
    assert_eq!(config.restapi.port, 8009);
    assert_eq!(config.raft.self_addr, "node9:2380");
}

#[test]
fn test_error_messages() {
    assert_eq!(Error::Dcs("x".into()).message(), "DCS error: x");
    assert_eq!(Error::Postgres("x".into()).message(), "PostgreSQL error: x");
    assert_eq!(Error::LockFailed.message(), "Lock acquisition failed");
    assert_eq!(Error::Timeout("x".into()).message(), "Timeout: x");
    assert_eq!(Error::Io("x".into()).message(), "IO error: x");
}

#[test]
fn test_tags_as_a_map() {
    let mut tags = Tags::default();
    tags.nofailover = true;
    tags.sync_priority = 3;
    let map = tags.to_map();
    assert_eq!(map.get("nofailover").unwrap().as_bool(), Some(true));
    assert_eq!(map.get("noclone").unwrap().as_bool(), Some(false));
    assert_eq!(map.get("sync_priority").unwrap().as_u64(), Some(3));
    assert_eq!(map.get("replicatefrom").unwrap().as_str(), None);
    assert_eq!(tags.to_json().get("nofailover").unwrap().as_bool(), Some(true));
}

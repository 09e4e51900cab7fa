//! The configuration of the whole cluster.

use pg_ha::dynamic_config::{
    classify_pg_param, detect_changes, DynamicConfigState, GlobalConfig, PgParamClassification,
    PostgresqlDynamicConfig,
};
use pg_ha::json::{merge_json_patch, Json};
use pg_ha::strmap::StringMap;

fn pairs(list: &[(&str, &str)]) -> StringMap<String> {
    let mut m = StringMap::new();
    for (k, v) in list {
        m.insert(k.to_string(), v.to_string());
    }
    m
}

fn object(list: &[(&str, Json)]) -> Json {
    Json::Object(list.iter().map(|(k, v)| (k.to_string(), v.clone())).collect())
}

fn text(s: &str) -> Json {
    Json::Text(s.to_string())
}

#[test]
fn test_classify_restart_params() {
    assert_eq!(
        classify_pg_param("shared_buffers"),
        PgParamClassification::NeedsRestart
    );
    assert_eq!(
        classify_pg_param("max_connections"),
        PgParamClassification::NeedsRestart
    );
    assert_eq!(
        classify_pg_param("wal_level"),
        PgParamClassification::NeedsRestart
    );
    assert_eq!(
        classify_pg_param("max_worker_processes"),
        PgParamClassification::NeedsRestart
    );
    assert_eq!(
        classify_pg_param("max_wal_senders"),
        PgParamClassification::NeedsRestart
    );
}

#[test]
fn test_classify_reload_params() {
    assert_eq!(
        classify_pg_param("work_mem"),
        PgParamClassification::NeedsReload
    );
    assert_eq!(
        classify_pg_param("maintenance_work_mem"),
        PgParamClassification::NeedsReload
    );
    assert_eq!(
        classify_pg_param("effective_cache_size"),
        PgParamClassification::NeedsReload
    );
    assert_eq!(
        classify_pg_param("log_min_duration_statement"),
        PgParamClassification::NeedsReload
    );
    assert_eq!(
        classify_pg_param("synchronous_commit"),
        PgParamClassification::NeedsReload
    );
}

#[test]
fn test_classify_case_insensitive() {
    assert_eq!(
        classify_pg_param("Shared_Buffers"),
        PgParamClassification::NeedsRestart
    );
    assert_eq!(
        classify_pg_param("WORK_MEM"),
        PgParamClassification::NeedsReload
    );
}

#[test]
fn test_detect_changes_no_changes() {
    let config = GlobalConfig {
        loop_wait: Some(10),
        ttl: Some(30),
        ..Default::default()
    };
    let changes = detect_changes(&config, &config);
    assert!(!changes.has_changes());
}

#[test]
fn test_detect_changes_ha_params() {
    let old = GlobalConfig {
        loop_wait: Some(10),
        ttl: Some(30),
        ..Default::default()
    };
    let new = GlobalConfig {
        loop_wait: Some(15),
        ttl: Some(30),
        ..Default::default()
    };
    let changes = detect_changes(&old, &new);
    assert!(changes.ha_params_changed);
    assert!(!changes.needs_restart());
    assert!(!changes.needs_reload());
}

#[test]
fn test_detect_changes_pg_reload_param() {
    let old = GlobalConfig {
        postgresql: Some(PostgresqlDynamicConfig {
            parameters: pairs(&[("work_mem", "32MB")]),
        }),
        ..Default::default()
    };
    let new = GlobalConfig {
        postgresql: Some(PostgresqlDynamicConfig {
            parameters: pairs(&[("work_mem", "64MB")]),
        }),
        ..Default::default()
    };
    let changes = detect_changes(&old, &new);
    assert!(!changes.ha_params_changed);
    assert!(changes.needs_reload());
    assert!(!changes.needs_restart());
    assert_eq!(changes.pg_reload_params.get("work_mem").unwrap(), "64MB");
}

#[test]
fn test_detect_changes_pg_restart_param() {
    let old = GlobalConfig {
        postgresql: Some(PostgresqlDynamicConfig {
            parameters: pairs(&[("max_connections", "100")]),
        }),
        ..Default::default()
    };
    let new = GlobalConfig {
        postgresql: Some(PostgresqlDynamicConfig {
            parameters: pairs(&[("max_connections", "200")]),
        }),
        ..Default::default()
    };
    let changes = detect_changes(&old, &new);
    assert!(changes.needs_restart());
    assert!(!changes.needs_reload());
    assert_eq!(
        changes.pg_restart_params.get("max_connections").unwrap(),
        "200"
    );
}

#[test]
fn test_detect_changes_pg_param_removed() {
    let old = GlobalConfig {
        postgresql: Some(PostgresqlDynamicConfig {
            parameters: pairs(&[("work_mem", "32MB"), ("shared_buffers", "256MB")]),
        }),
        ..Default::default()
    };
    let new = GlobalConfig {
        postgresql: Some(PostgresqlDynamicConfig {
            parameters: pairs(&[("shared_buffers", "256MB")]),
        }),
        ..Default::default()
    };
    let changes = detect_changes(&old, &new);
    assert!(changes.pg_removed_params.contains(&"work_mem".to_string()));
}

#[test]
fn test_detect_changes_mixed() {
    let old = GlobalConfig {
        loop_wait: Some(10),
        postgresql: Some(PostgresqlDynamicConfig {
            parameters: pairs(&[("work_mem", "32MB"), ("max_connections", "100")]),
        }),
        ..Default::default()
    };
    let new = GlobalConfig {
        loop_wait: Some(15),
        postgresql: Some(PostgresqlDynamicConfig {
            parameters: pairs(&[("work_mem", "64MB"), ("max_connections", "200")]),
        }),
        ..Default::default()
    };
    let changes = detect_changes(&old, &new);
    assert!(changes.ha_params_changed);
    assert!(changes.needs_reload());
    assert!(changes.needs_restart());
}

#[test]
fn test_dynamic_config_state_apply() {
    let mut state = DynamicConfigState::new();

    // First apply — everything is a change from default
    let config = GlobalConfig {
        loop_wait: Some(10),
        postgresql: Some(PostgresqlDynamicConfig {
            parameters: pairs(&[("work_mem", "32MB")]),
        }),
        ..Default::default()
    };
    let changes = state.apply_new_config(config.clone());
    assert!(changes.has_changes());
    assert!(!state.pending_restart);

    // Same config again — no changes
    let changes = state.apply_new_config(config);
    assert!(!changes.has_changes());

    // Restart param change
    let new_config = GlobalConfig {
        loop_wait: Some(10),
        postgresql: Some(PostgresqlDynamicConfig {
            parameters: pairs(&[("work_mem", "32MB"), ("max_connections", "200")]),
        }),
        ..Default::default()
    };
    let changes = state.apply_new_config(new_config);
    assert!(changes.needs_restart());
    assert!(state.pending_restart);
    assert!(state.pending_restart_params.contains_key("max_connections"));
}

#[test]
fn test_dynamic_config_state_clear_restart() {
    let mut state = DynamicConfigState::new();
    state.pending_restart = true;
    state
        .pending_restart_params
        .insert("max_connections".to_string(), "200".to_string());

    state.clear_pending_restart();
    assert!(!state.pending_restart);
    assert!(state.pending_restart_params.is_empty());
}

#[test]
fn test_patch_config_basic() {
    let mut config = object(&[("loop_wait", Json::Number(10)), ("ttl", Json::Number(30))]);
    let patch = object(&[
        ("loop_wait", Json::Number(15)),
        ("maximum_lag_on_failover", Json::Number(2097152)),
    ]);
    merge_json_patch(&mut config, &patch);
    assert_eq!(config.get("loop_wait").unwrap().as_u64(), Some(15));
    assert_eq!(config.get("ttl").unwrap().as_u64(), Some(30)); // unchanged
    assert_eq!(config.get("maximum_lag_on_failover").unwrap().as_u64(), Some(2097152));
}

#[test]
fn test_patch_config_null_removes_key() {
    let mut config = object(&[
        ("loop_wait", Json::Number(10)),
        ("ttl", Json::Number(30)),
        ("maximum_lag_on_failover", Json::Number(1048576)),
    ]);
    let patch = object(&[("maximum_lag_on_failover", Json::Null)]);
    merge_json_patch(&mut config, &patch);
    assert_eq!(config.get("loop_wait").unwrap().as_u64(), Some(10));
    assert_eq!(config.get("ttl").unwrap().as_u64(), Some(30));
    assert!(config.get("maximum_lag_on_failover").is_none()); // removed
}

#[test]
fn test_patch_config_postgresql_parameters() {
    let mut config = object(&[(
        "postgresql",
        object(&[(
            "parameters",
            object(&[("work_mem", text("32MB")), ("shared_buffers", text("256MB"))]),
        )]),
    )]);
    let patch = object(&[(
        "postgresql",
        object(&[(
            "parameters",
            object(&[("work_mem", text("64MB")), ("shared_buffers", Json::Null)]),
        )]),
    )]);
    merge_json_patch(&mut config, &patch);
    let params = config.get("postgresql").unwrap().get("parameters").unwrap();
    assert_eq!(params.get("work_mem").unwrap().as_str(), Some("64MB"));
    assert!(params.get("shared_buffers").is_none()); // removed by null
}

#[test]
fn test_patch_config_invalid_patch() {
    let mut config = object(&[]);
    // A non-object patch doesn't change anything, the base is returned as-is
    merge_json_patch(&mut config, &text("not an object"));
    assert!(matches!(config, Json::Object(ref fields) if fields.is_empty()));
}

#[test]
fn test_patch_applied_twice_changes_nothing_more() {
    let mut config = object(&[("a", Json::Number(1)), ("b", object(&[("c", Json::Number(2))]))]);
    let patch = object(&[("a", Json::Null), ("b", object(&[("d", Json::Bool(true))]))]);
    merge_json_patch(&mut config, &patch);
    merge_json_patch(&mut config, &patch);
    assert!(config.get("a").is_none());
    let b = config.get("b").unwrap();
    assert_eq!(b.get("c").unwrap().as_u64(), Some(2));
    assert_eq!(b.get("d").unwrap().as_bool(), Some(true));
}

#[test]
fn test_classify_ignores_the_case_of_other_letters() {
    // The Kelvin sign is no letter K, but its lower case is.
    assert_eq!(
        classify_pg_param("SSL_\u{212A}EY_FILE"),
        PgParamClassification::NeedsRestart
    );
    assert_eq!(classify_pg_param("ssl_key"), PgParamClassification::NeedsReload);
}

#[test]
fn test_standby_cluster_change_is_a_change() {
    let remote = pg_ha::standby_cluster::StandbyClusterConfig {
        host: "remote".to_string(),
        port: 5432,
        primary_slot_name: None,
        restore_command: None,
        create_replica_methods: vec!["basebackup".to_string()],
    };
    let old = GlobalConfig { standby_cluster: Some(remote.clone()), ..Default::default() };
    let mut new = old.clone();
    assert!(!detect_changes(&old, &new).has_changes());
    new.standby_cluster.as_mut().unwrap().create_replica_methods.push("pgbackrest".to_string());
    assert!(detect_changes(&old, &new).ha_params_changed);
    new.standby_cluster = None;
    assert!(detect_changes(&old, &new).ha_params_changed);
}

#[test]
fn test_pending_restart_collects_parameters() {
    let mut state = DynamicConfigState::default();
    let with = |list: &[(&str, &str)]| GlobalConfig {
        postgresql: Some(PostgresqlDynamicConfig { parameters: pairs(list) }),
        ..Default::default()
    };
    state.apply_new_config(with(&[("port", "1")]));
    state.apply_new_config(with(&[("port", "1"), ("wal_level", "logical")]));
    state.apply_new_config(with(&[("port", "2"), ("wal_level", "logical")]));
    assert!(state.pending_restart);
    assert_eq!(state.pending_restart_params.get("port").unwrap(), "2");
    assert_eq!(state.pending_restart_params.get("wal_level").unwrap(), "logical");
    let changes = state.apply_new_config(with(&[]));
    assert_eq!(changes.pg_removed_params.len(), 2);
    assert!(changes.needs_reload());
    assert!(state.pending_restart);
}

//! Creating clusters and cloning nodes.

use pg_ha::bootstrap::{BootEnd, BootOrder, BootPhase, Bootstrap, BootstrapResult};
use pg_ha::cluster::{Cluster, Leader, Member, MemberRole, MemberState};
use pg_ha::config::{BootstrapConfig, ConnectionParams, InitdbOption, PostgresqlConfig};
use pg_ha::cycle::Answer;
use pg_ha::json::Json;
use pg_ha::strmap::StringMap;

fn pairs(list: &[(&str, &str)]) -> StringMap<String> {
    let mut m = StringMap::new();
    for (k, v) in list {
        m.insert(k.to_string(), v.to_string());
    }
    m
}

fn tags(list: &[(&str, Json)]) -> StringMap<Json> {
    let mut m = StringMap::new();
    for (k, v) in list {
        m.insert(k.to_string(), v.clone());
    }
    m
}

fn make_member(name: &str, tags: StringMap<Json>) -> Member {
    Member {
        name: name.to_string(),
        conn_url: format!("host={name} port=5432 dbname=postgres"),
        api_url: format!("http://{name}:8008"),
        state: MemberState::Running,
        role: MemberRole::Replica,
        wal_position: None,
        timeline: None,
        tags,
        version: None,
    }
}

#[test]
fn test_parse_initdb_options_flags() {
    let options = vec![InitdbOption::Flag("data-checksums".to_string())];
    let result = Bootstrap::parse_initdb_options(&options);
    assert_eq!(result, vec!["data-checksums"]);
}

#[test]
fn test_parse_initdb_options_key_values() {
    let options = vec![
        InitdbOption::KeyValue(pairs(&[("encoding", "UTF8")])),
        InitdbOption::KeyValue(pairs(&[("locale", "en_US.UTF-8")])),
    ];
    let result = Bootstrap::parse_initdb_options(&options);
    assert!(result.contains(&"encoding=UTF8".to_string()));
    assert!(result.contains(&"locale=en_US.UTF-8".to_string()));
}

#[test]
fn test_parse_initdb_options_mixed() {
    let options = vec![
        InitdbOption::Flag("data-checksums".to_string()),
        InitdbOption::KeyValue(pairs(&[("encoding", "UTF8")])),
        InitdbOption::KeyValue(pairs(&[("wal-segsize", "64")])),
    ];
    let result = Bootstrap::parse_initdb_options(&options);
    assert_eq!(result.len(), 3);
    assert!(result.contains(&"data-checksums".to_string()));
    assert!(result.contains(&"encoding=UTF8".to_string()));
    assert!(result.contains(&"wal-segsize=64".to_string()));
}

#[test]
fn test_parse_initdb_options_empty() {
    let options: Vec<InitdbOption> = vec![];
    let result = Bootstrap::parse_initdb_options(&options);
    assert!(result.is_empty());
}

#[test]
fn test_select_clone_source_prefers_clonefrom_tag() {
    let cluster = Cluster {
        leader: Some(Leader {
            name: "node1".to_string(),
            version: 1,
        }),
        members: vec![
            make_member("node1", StringMap::new()),
            make_member(
                "node2",
                tags(&[("clonefrom", Json::Bool(true))]),
            ),
            make_member("node3", StringMap::new()),
        ],
        ..Default::default()
    };

    let source = Bootstrap::select_clone_source(&cluster, "node3").unwrap();
    assert_eq!(source.name, "node2");
}

#[test]
fn test_select_clone_source_falls_back_to_leader() {
    let cluster = Cluster {
        leader: Some(Leader {
            name: "node1".to_string(),
            version: 1,
        }),
        members: vec![
            make_member("node1", StringMap::new()),
            make_member("node2", StringMap::new()),
            make_member("node3", StringMap::new()),
        ],
        ..Default::default()
    };

    let source = Bootstrap::select_clone_source(&cluster, "node3").unwrap();
    assert_eq!(source.name, "node1"); // Falls back to leader
}

#[test]
fn test_select_clone_source_excludes_self() {
    let cluster = Cluster {
        leader: Some(Leader {
            name: "node1".to_string(),
            version: 1,
        }),
        members: vec![
            make_member("node1", StringMap::new()),
            make_member(
                "node2",
                tags(&[("clonefrom", Json::Bool(true))]),
            ),
        ],
        ..Default::default()
    };

    // Requesting as node2 — should not pick itself even though it has clonefrom
    let source = Bootstrap::select_clone_source(&cluster, "node2").unwrap();
    assert_eq!(source.name, "node1");
}

#[test]
fn test_select_clone_source_excludes_noclone() {
    let cluster = Cluster {
        leader: Some(Leader {
            name: "node1".to_string(),
            version: 1,
        }),
        members: vec![
            make_member(
                "node1",
                tags(&[("noclone", Json::Bool(true))]),
            ),
            make_member("node2", StringMap::new()),
        ],
        ..Default::default()
    };

    // node1 is leader but has noclone — should fall through to "any running member"
    let source = Bootstrap::select_clone_source(&cluster, "node3").unwrap();
    assert_eq!(source.name, "node2");
}

#[test]
fn test_select_clone_source_no_suitable_source() {
    let cluster = Cluster {
        leader: None,
        members: vec![make_member(
            "node1",
            tags(&[("noclone", Json::Bool(true))]),
        )],
        ..Default::default()
    };

    // node1 has noclone, and we're node2 — no source available
    let source = Bootstrap::select_clone_source(&cluster, "node2");
    assert!(source.is_none());
}

#[test]
fn test_select_clone_source_multiple_clonefrom() {
    let cluster = Cluster {
        leader: Some(Leader {
            name: "node1".to_string(),
            version: 1,
        }),
        members: vec![
            make_member("node1", StringMap::new()),
            make_member(
                "node2",
                tags(&[("clonefrom", Json::Bool(true))]),
            ),
            make_member(
                "node3",
                tags(&[("clonefrom", Json::Bool(true))]),
            ),
        ],
        ..Default::default()
    };

    // Should pick first clonefrom member found (node2)
    let source = Bootstrap::select_clone_source(&cluster, "node4").unwrap();
    assert_eq!(source.name, "node2");
}

#[test]
fn test_default_bootstrap_config() {
    let config = BootstrapConfig::default();
    assert!(config.initdb.is_empty());
    assert!(config.dcs.is_empty());
    assert!(config.post_init.is_empty());
    assert!(config.custom_command.is_none());
    assert!(config.post_bootstrap_sql.is_empty());
}

fn pg_config(parameters: StringMap<String>) -> PostgresqlConfig {
    let user = |name: &str| ConnectionParams {
        username: name.to_string(),
        password: None,
        dbname: "postgres".to_string(),
    };
    PostgresqlConfig {
        data_dir: "/data".to_string(),
        bin_dir: "/bin".to_string(),
        listen: "0.0.0.0".to_string(),
        port: 5432,
        superuser: user("postgres"),
        replication: user("repl"),
        parameters,
    }
}

const MANAGED: &str = "# pg-ha managed settings\nlisten_addresses = '0.0.0.0'\nport = 5432\nwal_level = replica\nmax_wal_senders = 10\nmax_replication_slots = 10\nhot_standby = on\n";

#[test]
fn test_settings_follow_what_was_there() {
    let config = pg_config(StringMap::new());
    assert_eq!(
        Bootstrap::write_pg_config(&config, "max_connections = 5\n\n"),
        format!("max_connections = 5\n{MANAGED}")
    );
    assert_eq!(Bootstrap::write_pg_config(&config, ""), format!("\n{MANAGED}"));
}

#[test]
fn test_settings_are_quoted_where_needed() {
    let config = pg_config(pairs(&[
        ("port", "1"),
        ("work_mem", "64MB"),
        ("shared_preload_libraries", "'pg_stat_statements'"),
        ("random_page_cost", "1.1"),
        ("jit", "off"),
        ("checkpoint_completion_target", "\"9e-1\""),
    ]));
    let text = Bootstrap::write_pg_config(&config, "");
    assert_eq!(
        text,
        format!(
            "\n{MANAGED}work_mem = '64MB'\nshared_preload_libraries = 'pg_stat_statements'\nrandom_page_cost = 1.1\njit = off\ncheckpoint_completion_target = 9e-1\n"
        )
    );
}

#[test]
fn test_settings_are_replaced_when_written_again() {
    let first = pg_config(pairs(&[("work_mem", "1MB")]));
    let second = pg_config(pairs(&[("work_mem", "2MB")]));
    let once = Bootstrap::write_pg_config(&second, "fsync = on");
    let twice = Bootstrap::write_pg_config(&second, &Bootstrap::write_pg_config(&first, "fsync = on"));
    assert_eq!(once, twice);
}

#[test]
fn test_numbers_are_recognised_as_the_parser_does() {
    let samples = vec![
        "1", "-1", "+1.5", ".5", "5.", "1e9", "1E-9", "1.e+3", "inf", "-Infinity", "NaN", "", ".",
        "+", "e5", "1e", "1e+", "1_0", " 1", "1 ", "0x10", "--1", "1.2.3", "infin", "1f",
    ];
    for s in samples {
        assert_eq!(pg_ha::bootstrap::spells_number(s), s.parse::<f64>().is_ok(), "{s}");
    }
}

#[test]
fn test_hba_lets_the_user_replicate() {
    let text = Bootstrap::write_hba_config("repl");
    assert!(text.starts_with("# pg-ha managed\nlocal   all             all "));
    assert!(text.contains("\nhost    replication     repl     0.0.0.0/0               trust\n"));
    assert!(text.ends_with("\nhost    replication     repl     ::/0                    trust\n"));
}

#[test]
fn test_creation_of_a_cluster() {
    let mut config = BootstrapConfig::default();
    let next = |p, c: &BootstrapConfig, a| Bootstrap::bootstrap_new_cluster(p, c, a);
    assert_eq!(
        next(BootPhase::Racing, &config, Answer::Done),
        (BootPhase::Creating, BootOrder::RunInitdb)
    );
    assert_eq!(
        next(BootPhase::Starting, &config, Answer::Done),
        (BootPhase::Over, BootOrder::Finish(BootEnd::Created))
    );
    config.custom_command = Some("make".to_string());
    config.post_bootstrap_sql = vec!["SELECT 1".to_string()];
    assert_eq!(
        next(BootPhase::Racing, &config, Answer::Done),
        (BootPhase::Creating, BootOrder::RunCommand)
    );
    assert_eq!(
        next(BootPhase::Starting, &config, Answer::Done),
        (BootPhase::RunningSql, BootOrder::RunSql)
    );
    config.dcs.insert("ttl".to_string(), Json::Number(30));
    assert_eq!(
        next(BootPhase::RunningSql, &config, Answer::Failed),
        (BootPhase::StoringConfig, BootOrder::StoreConfig)
    );
    assert_eq!(
        next(BootPhase::Racing, &config, Answer::Refused),
        (BootPhase::Over, BootOrder::Finish(BootEnd::LostRace))
    );
    assert_eq!(
        next(BootPhase::Creating, &config, Answer::Failed),
        (BootPhase::CleaningUp(BootEnd::CreateFailed), BootOrder::CleanUp)
    );
    assert_eq!(
        next(BootPhase::CleaningUp(BootEnd::StartFailed), &config, Answer::Done),
        (BootPhase::Over, BootOrder::Finish(BootEnd::StartFailed))
    );
}

#[test]
fn test_statements_of_both_lists_are_run() {
    let mut config = BootstrapConfig::default();
    assert!(Bootstrap::statements(&config).is_empty());
    config.post_init = vec!["CREATE ROLE a".to_string(), "CREATE ROLE b".to_string()];
    assert_eq!(
        Bootstrap::bootstrap_new_cluster(BootPhase::Starting, &config, Answer::Done),
        (BootPhase::RunningSql, BootOrder::RunSql)
    );
    config.post_bootstrap_sql = vec!["SELECT 1".to_string()];
    assert_eq!(
        Bootstrap::statements(&config),
        vec!["CREATE ROLE a".to_string(), "CREATE ROLE b".to_string(), "SELECT 1".to_string()]
    );
}

fn failure(r: BootstrapResult) -> String {
    match r {
        BootstrapResult::Failed(m) => m,
        _ => panic!("expected a failure"),
    }
}

#[test]
fn test_results_of_a_bootstrap() {
    assert_eq!(failure(Bootstrap::result(BootEnd::RaceFailed, "x")), "DCS initialize error: x");
    assert_eq!(failure(Bootstrap::result(BootEnd::CreateFailed, "x")), "x");
    assert_eq!(
        failure(Bootstrap::result(BootEnd::StartFailed, "x")),
        "Start after bootstrap failed: x"
    );
    assert_eq!(Bootstrap::result(BootEnd::Created, "").answer_to_bootstrap(), Answer::Done);
    assert_eq!(Bootstrap::result(BootEnd::LostRace, "").answer_to_bootstrap(), Answer::Refused);
}

#[test]
fn test_custom_command_must_fill_the_directory() {
    assert!(Bootstrap::run_custom_bootstrap(true, true, "").is_ok());
    assert_eq!(
        Bootstrap::run_custom_bootstrap(true, false, "").unwrap_err().message(),
        "PostgreSQL error: Custom bootstrap command succeeded but data directory is empty"
    );
    assert_eq!(
        Bootstrap::run_custom_bootstrap(false, true, "oops").unwrap_err().message(),
        "PostgreSQL error: Custom bootstrap command failed: oops"
    );
}

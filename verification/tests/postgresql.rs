//! The local PostgreSQL instance.

use std::time::Duration;

use pg_ha::cluster::MemberRole;
use pg_ha::config::{ConnectionParams, PostgresqlConfig};
use pg_ha::postgresql::{
    parse_lsn, redact_connstr, PgState, Postgresql, QueryRow, StartStep, WalStatus,
    PG_CONNECTION_TIMEOUT_SECS, START_POLLS,
};
use pg_ha::strmap::StringMap;

fn test_config() -> PostgresqlConfig {
    PostgresqlConfig {
        data_dir: "/tmp/pg-ha-test-data".to_string(),
        bin_dir: "/usr/lib/postgresql/16/bin".to_string(),
        listen: "127.0.0.1".to_string(),
        port: 5432,
        superuser: ConnectionParams {
            username: "postgres".to_string(),
            password: Some("secret".to_string()),
            dbname: "postgres".to_string(),
        },
        replication: ConnectionParams {
            username: "replicator".to_string(),
            password: Some("replpass".to_string()),
            dbname: "postgres".to_string(),
        },
        parameters: StringMap::new(),
    }
}

fn row(columns: &[Option<&str>]) -> QueryRow {
    QueryRow {
        columns: columns.iter().map(|c| c.map(|s| s.to_string())).collect(),
    }
}

#[test]
fn test_connection_string() {
    let pg = Postgresql::new(test_config());
    let connstr = pg.connection_string();
    assert!(connstr.contains("host=127.0.0.1"));
    assert!(connstr.contains("port=5432"));
    assert!(connstr.contains("user=postgres"));
    assert!(connstr.contains("password=secret"));
    assert!(connstr.contains("dbname=postgres"));
}

#[test]
fn test_replication_connection_string() {
    let pg = Postgresql::new(test_config());
    let connstr = pg.replication_connection_string("10.0.0.1", 5432);
    assert!(connstr.contains("host=10.0.0.1"));
    assert!(connstr.contains("user=replicator"));
    assert!(connstr.contains("password=replpass"));
}

#[test]
fn test_data_directory_empty_nonexistent() {
    let pg = Postgresql::new(test_config());
    assert!(pg.data_directory_empty(false, false, false).unwrap());
    assert!(pg.data_directory_empty(true, true, false).unwrap());
    assert!(!pg.data_directory_empty(true, true, true).unwrap());
    assert_eq!(
        pg.data_directory_empty(true, false, false).unwrap_err().message(),
        "PostgreSQL error: data_dir '/tmp/pg-ha-test-data' exists but is not a directory"
    );
}

#[test]
fn test_is_running_no_pid_file() {
    assert!(!Postgresql::is_running(None, true, Some("postgres")));
}

#[test]
fn test_initial_state() {
    let pg = Postgresql::new(test_config());
    assert_eq!(pg.role(), &MemberRole::Uninitialized);
    assert_eq!(pg.state(), PgState::Unknown);
    assert!(!pg.is_primary());
}

#[test]
fn test_role_mutation() {
    let mut pg = Postgresql::new(test_config());
    pg.set_role(MemberRole::Primary);
    assert!(pg.is_primary());
    pg.set_role(MemberRole::Replica);
    assert!(!pg.is_primary());
}

#[test]
fn test_pg_ctl_path() {
    let pg = Postgresql::new(test_config());
    assert_eq!(pg.pg_ctl(), "/usr/lib/postgresql/16/bin/pg_ctl");
}

#[test]
fn test_pg_state_display() {
    assert_eq!(PgState::Running.as_str(), "running");
    assert_eq!(PgState::Stopped.as_str(), "stopped");
    assert_eq!(PgState::Starting.as_str(), "starting");
    assert_eq!(PgState::Crashed.as_str(), "crashed");
    assert_eq!(PgState::Unknown.as_str(), "unknown");
}

#[test]
fn test_parse_lsn_basic() {
    assert_eq!(parse_lsn("0/3000060"), Some(0x3000060));
    assert_eq!(parse_lsn("1/3000060"), Some((1u64 << 32) | 0x3000060));
    assert_eq!(parse_lsn("0/0"), Some(0));
    assert_eq!(parse_lsn("FF/FFFFFFFF"), Some((0xFFu64 << 32) | 0xFFFFFFFF));
}

#[test]
fn test_parse_lsn_invalid() {
    assert_eq!(parse_lsn(""), None);
    assert_eq!(parse_lsn("0"), None);
    assert_eq!(parse_lsn("0/0/0"), None);
    assert_eq!(parse_lsn("G/0"), None);
    assert_eq!(parse_lsn("0/G"), None);
}

#[test]
fn test_pg_connection_timeout_defined_and_reasonable() {
    let timeout = Duration::from_secs(PG_CONNECTION_TIMEOUT_SECS);
    assert_eq!(timeout, Duration::from_secs(30));
    assert!(timeout > Duration::ZERO, "Timeout must be positive");
    assert!(timeout <= Duration::from_secs(60));
}

#[test]
fn test_bug_condition_pid_validation_in_is_running() {
    // A process with the right number that is not PostgreSQL does not count.
    assert!(!Postgresql::is_running(Some("42\n/data\n"), true, Some("/usr/bin/vim\0x")));
    assert!(!Postgresql::is_running(Some("42\n/data\n"), true, None));
    assert!(!Postgresql::is_running(Some("42\n/data\n"), false, Some("postgres")));
    assert!(!Postgresql::is_running(Some("none\n42"), true, Some("postgres")));
    assert!(Postgresql::is_running(Some(" 42 \r\n/data\n"), true, Some("/bin/postgres\0-D")));
    assert!(!Postgresql::is_running(Some("42"), true, Some("sh\0postgres")));
    assert_eq!(Postgresql::postmaster_pid("-7\n"), Some(-7));
    assert_eq!(Postgresql::postmaster_pid(""), None);
}

#[test]
fn test_passwords_are_redacted() {
    assert_eq!(
        redact_connstr("host=h password=secret port=1"),
        "host=h password=*** port=1"
    );
    assert_eq!(
        redact_connstr("password=a password=b"),
        "password=*** password=***"
    );
    assert_eq!(redact_connstr("host=h"), "host=h");
    assert_eq!(
        redact_connstr("user=u password=one dbname=d"),
        redact_connstr("user=u password=another dbname=d")
    );
}

#[test]
fn test_tools_are_called_with_their_arguments() {
    let pg = Postgresql::new(test_config());
    assert_eq!(
        pg.start_args(),
        vec!["start", "-D", "/tmp/pg-ha-test-data", "-l", "/tmp/pg-ha-test-data/pg_log.log", "-w"]
    );
    assert_eq!(
        pg.stop_args("fast"),
        vec!["stop", "-D", "/tmp/pg-ha-test-data", "-m", "fast", "-w"]
    );
    assert_eq!(pg.promote_args(), vec!["promote", "-D", "/tmp/pg-ha-test-data", "-w"]);
    assert_eq!(pg.reload_args(), vec!["reload", "-D", "/tmp/pg-ha-test-data"]);
    assert_eq!(
        pg.initdb_args(&vec!["encoding=UTF8".to_string()]),
        vec!["-D", "/tmp/pg-ha-test-data", "--encoding=UTF8"]
    );
    assert_eq!(
        pg.basebackup_args("host=h"),
        vec![
            "-D",
            "/tmp/pg-ha-test-data",
            "-d",
            "host=h",
            "--checkpoint=fast",
            "--wal-method=stream",
            "--no-password"
        ]
    );
    assert_eq!(
        pg.rewind_args("host=h"),
        vec![
            "--target-pgdata",
            "/tmp/pg-ha-test-data",
            "--source-server",
            "host=h",
            "--progress"
        ]
    );
}

#[test]
fn test_start_gives_up_after_some_looks() {
    let mut pg = Postgresql::new(test_config());
    pg.starting();
    assert_eq!(pg.state(), PgState::Starting);
    assert_eq!(pg.start(true, 0, false), StartStep::LookAgain);
    assert_eq!(pg.state(), PgState::Starting);
    assert_eq!(pg.start(true, START_POLLS, true), StartStep::Started);
    assert_eq!(pg.state(), PgState::Running);
    assert_eq!(pg.start(true, START_POLLS, false), StartStep::GaveUp);
    assert_eq!(pg.state(), PgState::Crashed);
    assert_eq!(pg.start(false, 0, true), StartStep::GaveUp);
    assert_eq!(
        Postgresql::start_error(true, "").message(),
        "PostgreSQL error: PostgreSQL did not start within timeout"
    );
    assert_eq!(
        Postgresql::start_error(false, "no").message(),
        "PostgreSQL error: pg_ctl start failed: no"
    );
}

#[test]
fn test_tools_that_fail() {
    let mut pg = Postgresql::new(test_config());
    assert_eq!(pg.stop(false).unwrap_err().message(), "PostgreSQL error: pg_ctl stop failed");
    assert!(pg.stop(true).is_ok());
    assert_eq!(pg.state(), PgState::Stopped);
    assert_eq!(
        pg.promote(false, "no").unwrap_err().message(),
        "PostgreSQL error: pg_ctl promote failed: no"
    );
    assert!(!pg.is_primary());
    assert!(pg.promote(true, "").is_ok());
    assert!(pg.is_primary());
    assert_eq!(
        Postgresql::rewind(false, "x").unwrap_err().message(),
        "PostgreSQL error: pg_rewind failed: x"
    );
    assert_eq!(
        Postgresql::basebackup(false, "x").unwrap_err().message(),
        "PostgreSQL error: pg_basebackup failed: x"
    );
    assert_eq!(
        Postgresql::initdb(false, "x").unwrap_err().message(),
        "PostgreSQL error: initdb failed: x"
    );
    assert_eq!(
        Postgresql::reload(false, "x").unwrap_err().message(),
        "PostgreSQL error: pg_ctl reload failed: x"
    );
    assert!(Postgresql::reload(true, "").is_ok());
}

#[test]
fn test_control_data() {
    let output = "pg_control version number:            1300\nDatabase system identifier:           7123456789\r\nDatabase cluster state:               in production\n";
    assert_eq!(Postgresql::sysid(output).unwrap(), "7123456789");
    assert_eq!(Postgresql::controldata_state(output).unwrap(), "in production");
    assert_eq!(
        Postgresql::sysid("nothing").unwrap_err().message(),
        "PostgreSQL error: Could not find system identifier in pg_controldata output"
    );
    assert_eq!(
        Postgresql::controldata_state("Database cluster state\n").unwrap_err().message(),
        "PostgreSQL error: Could not find cluster state in pg_controldata output"
    );
}

#[test]
fn test_recovery_state() {
    assert!(Postgresql::is_in_recovery(&vec![row(&[None]), row(&[Some("t")]), row(&[Some("f")])]).unwrap());
    assert!(!Postgresql::is_in_recovery(&vec![row(&[Some("f")])]).unwrap());
    assert_eq!(
        Postgresql::is_in_recovery(&vec![]).unwrap_err().message(),
        "PostgreSQL error: Could not determine recovery state"
    );
    assert!(!Postgresql::recovery_answer(&vec![row(&[Some("t")]), row(&[Some("f")])]));
    assert!(!Postgresql::recovery_answer(&vec![]));
}

#[test]
fn test_wal_status_of_a_replica() {
    let status = Postgresql::wal_status(true, &vec![row(&[Some("100"), Some("200"), Some("3")])]);
    assert_eq!(
        status,
        WalStatus { timeline: Some(3), wal_position: 200, in_recovery: true }
    );
    let status = Postgresql::wal_status(true, &vec![row(&[Some("300"), None, Some("x")])]);
    assert_eq!(status, WalStatus { timeline: None, wal_position: 300, in_recovery: true });
    assert_eq!(
        Postgresql::query_timeline(&status).unwrap_err().message(),
        "PostgreSQL error: Could not determine timeline"
    );
}

#[test]
fn test_wal_status_of_a_primary() {
    let rows = vec![row(&[Some("7"), Some("1")]), row(&[Some("bad"), Some("2")])];
    let status = Postgresql::wal_status(false, &rows);
    assert_eq!(status, WalStatus { timeline: Some(2), wal_position: 0, in_recovery: false });
    assert_eq!(Postgresql::query_timeline(&status).unwrap(), 2);
    assert_eq!(Postgresql::query_wal_position(&status), 0);
}

#[test]
fn test_query_for_the_position() {
    assert!(Postgresql::wal_query(true).starts_with("SELECT pg_last_wal_receive_lsn() - '0/0',"));
    assert_eq!(
        Postgresql::wal_query(false),
        "SELECT pg_current_wal_lsn() - '0/0', (SELECT timeline_id FROM pg_control_checkpoint())"
    );
}

//! The agent and its control loop.

use pg_ha::api::NodeState;
use pg_ha::bootstrap::{Bootstrap, BootstrapResult, CloneOrder, ClonePhase};
use pg_ha::cluster::{Cluster, ClusterConfig, Failover, Leader, Member, MemberRole, MemberState};
use pg_ha::commands::{CommandStatus, ManagementCommand};
use pg_ha::config::{
    Config, ConnectionParams, PostgresqlConfig, ProxyConfig, RaftConfig, RestApiConfig, Tags,
    WatchdogConfig,
};
use pg_ha::connstr::StandbyReason;
use pg_ha::cycle::{Answer, DataDir, Order, Outcome, StopMode};
use pg_ha::dynamic_config::GlobalConfig;
use pg_ha::election::is_healthiest_node;
use pg_ha::ha::{read_conninfo, read_current_upstream, Ha, Observation};
use pg_ha::json::Json;
use pg_ha::operations::{ReinitializePhase, RequestOrder, RestartPhase, Step};
use pg_ha::postgresql::{Postgresql, WalStatus};
use pg_ha::report::CycleResult;
use pg_ha::standby_cluster::{CascadeOrder, CascadePhase, StandbyClusterConfig};
use pg_ha::strmap::StringMap;

fn user(name: &str) -> ConnectionParams {
    ConnectionParams {
        username: name.to_string(),
        password: None,
        dbname: "postgres".to_string(),
    }
}

fn test_config(name: &str) -> Config {
    Config {
        name: name.to_string(),
        scope: "test-cluster".to_string(),
        namespace: "service".to_string(),
        loop_wait: 10,
        ttl: 30,
        retry_timeout: 10,
        postgresql: PostgresqlConfig {
            data_dir: "/tmp/pg-ha-test-nonexist".to_string(),
            bin_dir: "/usr/bin".to_string(),
            listen: "127.0.0.1".to_string(),
            port: 5432,
            superuser: user("postgres"),
            replication: user("replicator"),
            parameters: StringMap::new(),
        },
        restapi: RestApiConfig {
            listen: "127.0.0.1".to_string(),
            port: 8008,
            username: None,
            password: None,
        },
        raft: RaftConfig {
            self_addr: "127.0.0.1:2380".to_string(),
            partner_addrs: vec!["127.0.0.2:2380".to_string()],
            data_dir: None,
            node_id: None,
        },
        proxy: ProxyConfig {
            rw_listen: "0.0.0.0".to_string(),
            rw_port: 6432,
            ro_listen: "0.0.0.0".to_string(),
            ro_port: 6433,
        },
        watchdog: WatchdogConfig::default(),
        tags: Tags::default(),
        bootstrap: None,
    }
}

fn agent(config: Config) -> Ha {
    let pg = Postgresql::new(test_config("").postgresql);
    Ha::new(config, pg)
}

fn member(name: &str, wal: Option<u64>, tags: StringMap<Json>) -> Member {
    Member {
        name: name.to_string(),
        conn_url: String::new(),
        api_url: String::new(),
        state: MemberState::Running,
        role: MemberRole::Replica,
        wal_position: wal,
        timeline: Some(1),
        tags,
        version: None,
    }
}

fn at(name: &str, host: &str) -> Member {
    let mut m = member(name, Some(1000), StringMap::new());
    m.conn_url = format!("host={host} port=5432 user=postgres");
    m
}

fn tag(key: &str, value: Json) -> StringMap<Json> {
    let mut tags = StringMap::new();
    tags.insert(key.to_string(), value);
    tags
}

fn cluster(leader: Option<&str>, members: Vec<Member>) -> Cluster {
    let mut c = Cluster::empty();
    c.leader = leader.map(|n| Leader { name: n.to_string(), version: 1 });
    c.members = members;
    c
}

fn healthiest(ha: &Ha, running: bool) -> bool {
    is_healthiest_node(&ha.cluster, &ha.config.name, &ha.config.tags, running)
}

fn seen(running: bool, standby_signal: bool) -> Observation {
    Observation {
        running,
        standby_signal,
        data_dir: DataDir::Used,
        auto_conf: None,
        auto_conf_age: None,
    }
}

/// Brings a run to its first decision.
fn decide(ha: &mut Ha, c: Cluster, o: &Observation) -> Order {
    assert_eq!(ha.begin(Some(c)), Order::ReadConfig);
    ha.process_dynamic_config(None, o)
}

#[test]
fn test_empty_data_dir_triggers_bootstrap() {
    let mut ha = agent(test_config("node1"));
    let mut o = seen(false, false);
    o.data_dir = DataDir::Empty;
    // data_dir doesn't exist → empty → should try to bootstrap
    assert_eq!(decide(&mut ha, Cluster::empty(), &o), Order::Touch);
    assert_eq!(ha.step(&o, Answer::Done, ""), Order::Bootstrap);
    let end = ha.step(&o, Answer::Failed, "initdb failed");
    assert_eq!(end, Order::Finish(Outcome::BootstrapFailed));
    let msg = ha.describe(Outcome::BootstrapFailed, "initdb failed").to_text();
    assert!(
        msg.contains("bootstrap") || msg.contains("initdb") || msg.contains("Error"),
        "Expected bootstrap attempt, got: {msg}"
    );
    assert_eq!(msg, "Error: Bootstrap failed: initdb failed");
}

#[test]
fn test_nofailover_prevents_election() {
    let mut config = test_config("node1");
    config.tags.nofailover = true;
    let ha = agent(config);
    assert!(!healthiest(&ha, false));
    assert!(!healthiest(&ha, true));
}

#[test]
fn test_failover_priority_zero_prevents_election() {
    let mut config = test_config("node1");
    config.tags.failover_priority = 0;
    let ha = agent(config);
    assert!(!healthiest(&ha, false));
    assert!(!healthiest(&ha, true));
}

#[test]
fn test_healthiest_node_wins_by_wal_position() {
    let mut ha = agent(test_config("node2"));
    ha.cluster = cluster(
        None,
        vec![
            member("node1", Some(2000), StringMap::new()),
            member("node2", Some(1000), StringMap::new()),
        ],
    );
    // node2 (us) has WAL=1000, node1 has WAL=2000 → we are NOT healthiest
    assert!(!healthiest(&ha, false));
    assert!(!healthiest(&ha, true));
}

#[test]
fn test_healthiest_node_wins_by_priority_on_tie() {
    let mut config = test_config("node2");
    config.tags.failover_priority = 1;
    let mut ha = agent(config);
    ha.cluster = cluster(
        None,
        vec![
            member("node1", Some(1000), tag("failover_priority", Json::Number(10))),
            member("node2", Some(1000), StringMap::new()),
        ],
    );
    // Same WAL, node1 has priority=10, we have priority=1 → NOT healthiest
    assert!(!healthiest(&ha, false));
    assert!(!healthiest(&ha, true));
}

#[test]
fn test_healthiest_node_nofailover_member_excluded() {
    let mut ha = agent(test_config("node2"));
    ha.cluster = cluster(
        None,
        vec![
            // higher WAL but nofailover
            member("node1", Some(9999), tag("nofailover", Json::Bool(true))),
            member("node2", Some(1000), StringMap::new()),
        ],
    );
    // node1 has higher WAL but is nofailover → we ARE healthiest
    assert!(healthiest(&ha, true));
}

#[test]
fn test_healthy_cluster_follower() {
    let mut ha = agent(test_config("node2"));
    // Leader is "node1", we are "node2"
    let o = seen(false, false);
    assert_eq!(decide(&mut ha, cluster(Some("node1"), vec![]), &o), Order::Touch);
    // PG is not running, so we'll try to start it or report it's down
    assert_eq!(ha.step(&o, Answer::Done, ""), Order::Start);
    assert_eq!(ha.step(&o, Answer::Failed, "no binary"), Order::Finish(Outcome::StartFailed));
    // The key assertion: we should NOT try to become leader
    assert!(!ha.is_leader);
    assert_eq!(
        ha.describe(Outcome::StartFailed, "no binary").to_text(),
        "Error: Failed to start PostgreSQL: no binary (attempt 1)"
    );
}

#[test]
fn test_preservation_ha_new_without_recovering_field() {
    let ha = agent(test_config("node1"));
    assert!(!ha.is_leader(), "New Ha instance should not be leader");
    assert!(!ha.is_paused(), "New Ha instance should not be paused");
    assert_eq!(ha.config().name, "node1");
    assert!(!ha.pending_restart());
    assert!(!ha.is_standby_cluster());
}

#[test]
fn test_exactly_one_node_wins() {
    let members = || {
        vec![
            member("node1", Some(1000), StringMap::new()),
            member("node2", Some(1000), StringMap::new()),
            member("node3", Some(900), StringMap::new()),
        ]
    };
    let mut winners = Vec::new();
    for name in ["node1", "node2", "node3"] {
        let mut ha = agent(test_config(name));
        ha.cluster = cluster(None, members());
        if healthiest(&ha, true) {
            winners.push(name);
        }
    }
    assert_eq!(winners, vec!["node1"]);
}

#[test]
fn test_replica_takes_over() {
    let mut ha = agent(test_config("node2"));
    let o = seen(true, true);
    let c = cluster(None, vec![member("node2", Some(1000), StringMap::new())]);
    assert_eq!(decide(&mut ha, c, &o), Order::Acquire);
    assert_eq!(ha.step(&o, Answer::Done, ""), Order::ClearFailover);
    assert!(ha.is_leader());
    assert_eq!(ha.step(&o, Answer::Failed, ""), Order::Promote);
    assert_eq!(ha.step(&o, Answer::Done, ""), Order::Touch);
    assert_eq!(ha.step(&o, Answer::Done, ""), Order::Finish(Outcome::Promoted));
    assert!(ha.postgresql().is_primary());
    assert_eq!(
        ha.describe(Outcome::Promoted, "").to_text(),
        "Leader: promoted to primary. I am (node2), the leader with the lock"
    );
}

#[test]
fn test_leader_that_loses_the_lock_stops() {
    let mut ha = agent(test_config("node1"));
    ha.is_leader = true;
    ha.postgresql_mut().set_role(MemberRole::Primary);
    let o = seen(true, false);
    let c = || cluster(Some("node1"), vec![member("node1", None, StringMap::new())]);
    assert_eq!(decide(&mut ha, c(), &o), Order::Renew);
    assert_eq!(ha.step(&o, Answer::Refused, ""), Order::Stop(StopMode::Immediate));
    assert_eq!(ha.step(&o, Answer::Failed, "x"), Order::Finish(Outcome::Demoted));
    assert!(!ha.is_leader);
    assert_eq!(ha.postgresql.role, MemberRole::Replica);

    // In a paused cluster it goes on.
    ha.postgresql_mut().set_role(MemberRole::Primary);
    let mut paused = c();
    paused.config = Some(ClusterConfig { version: 1, data: tag("pause", Json::Bool(true)) });
    assert_eq!(decide(&mut ha, paused, &o), Order::Renew);
    assert!(ha.is_paused());
    assert_eq!(ha.step(&o, Answer::Failed, "x"), Order::Finish(Outcome::KeptDespiteError));
}

#[test]
fn test_members_let_a_leader_stay() {
    let mut ha = agent(test_config("node1"));
    let o = seen(true, false);
    let url = |name: &str| {
        let mut m = member(name, None, StringMap::new());
        m.api_url = format!("http://{name}:8008");
        m
    };
    let c = cluster(Some("node1"), vec![url("node1"), url("node2"), url("node3")]);
    assert_eq!(ha.begin(Some(c)), Order::ReadConfig);
    let g = GlobalConfig { failsafe_mode: Some(true), ..Default::default() };
    assert_eq!(ha.process_dynamic_config(Some(g), &o), Order::Renew);
    assert_eq!(ha.step(&o, Answer::Done, ""), Order::Touch);
    assert_eq!(ha.step(&o, Answer::Done, ""), Order::Finish(Outcome::Leading));

    // Without the store the others are asked.
    assert_eq!(ha.begin(None), Order::AskMembers);
    let mut urls: Vec<String> = ha.failsafe.pings("node1").into_iter().map(|p| p.url).collect();
    urls.sort();
    assert_eq!(
        urls,
        vec!["http://node2:8008/failsafe".to_string(), "http://node3:8008/failsafe".to_string()]
    );
    let answer = ha.check_failsafe(&vec![true, true]);
    assert_eq!(answer, Answer::Done);
    assert_eq!(ha.step(&o, answer, ""), Order::Finish(Outcome::KeptByMembers));
    assert!(ha.is_leader);
    assert_eq!(ha.postgresql.role, MemberRole::Primary);
    assert_eq!(
        ha.describe(Outcome::KeptByMembers, "").to_text(),
        "Error: DCS unreachable: continue running as primary, all members confirmed"
    );
    let mut state = NodeState::new("node1".to_string(), "main".to_string(), 30);
    state.update(&ha, true, &ha.describe(Outcome::KeptByMembers, ""));
    assert!(state.failsafe_active);
    assert!(state.dcs_last_seen.is_none());
    assert_eq!(state.confirm_primary(), 409);

    // So they are when the lock cannot be renewed. One refusal is enough to stop.
    let c = cluster(Some("node1"), vec![url("node1"), url("node2"), url("node3")]);
    assert_eq!(decide(&mut ha, c, &o), Order::Renew);
    assert_eq!(ha.step(&o, Answer::Failed, "x"), Order::AskMembers);
    let answer = ha.check_failsafe(&vec![true, false]);
    assert_eq!(answer, Answer::Refused);
    assert_eq!(ha.step(&o, answer, ""), Order::Stop(StopMode::Fast));
    assert!(!ha.is_leader);
    assert_eq!(ha.step(&o, Answer::Done, ""), Order::Finish(Outcome::StoreDemoted));
    assert_eq!(ha.postgresql.role, MemberRole::Replica);
    state.update(&ha, true, &ha.describe(Outcome::StoreDemoted, ""));
    assert_eq!(state.confirm_primary(), 200);
}

#[test]
fn test_members_that_must_confirm_can_be_named() {
    let mut ha = agent(test_config("node1"));
    let mut c = cluster(Some("node1"), vec![member("node2", None, StringMap::new())]);
    let mut named = StringMap::new();
    named.insert("node9".to_string(), "http://n9".to_string());
    c.failsafe = Some(named);
    ha.begin(Some(c));
    let pings = ha.failsafe.pings("node1");
    assert_eq!(pings.len(), 1);
    assert_eq!(pings[0].url, "http://n9/failsafe");
}

#[test]
fn test_lagging_node_does_not_take_over() {
    let mut ha = agent(test_config("node2"));
    let o = seen(true, true);
    let c = || {
        let mut gone = member("node1", Some(5000), StringMap::new());
        gone.state = MemberState::Stopped;
        cluster(None, vec![gone, member("node2", Some(1000), StringMap::new())])
    };
    let limit = |n: u64| GlobalConfig { maximum_lag_on_failover: Some(n), ..Default::default() };
    assert_eq!(ha.begin(Some(c())), Order::ReadConfig);
    assert_eq!(
        ha.process_dynamic_config(Some(limit(3999)), &o),
        Order::Finish(Outcome::Waiting)
    );
    assert_eq!(ha.begin(Some(c())), Order::ReadConfig);
    assert_eq!(ha.process_dynamic_config(Some(limit(4000)), &o), Order::Acquire);
    // The candidate that an operator names takes over all the same.
    let mut named = c();
    named.failover =
        Some(Failover { leader: None, candidate: some("node2"), scheduled_at: None });
    assert_eq!(ha.begin(Some(named)), Order::ReadConfig);
    assert_eq!(ha.process_dynamic_config(Some(limit(1)), &o), Order::Acquire);
}

#[test]
fn test_leader_without_a_store_stops() {
    let mut ha = agent(test_config("node1"));
    ha.is_leader = true;
    let o = seen(true, false);
    assert_eq!(ha.begin(None), Order::Stop(StopMode::Fast));
    assert!(!ha.is_leader);
    assert_eq!(ha.step(&o, Answer::Done, ""), Order::Finish(Outcome::StoreDemoted));
    assert_eq!(ha.begin(None), Order::Finish(Outcome::StoreLost));
    assert_eq!(
        ha.describe(Outcome::StoreLost, "").to_text(),
        "Error: DCS unreachable"
    );
}

#[test]
fn test_old_primary_rejoins() {
    let mut ha = agent(test_config("node1"));
    ha.postgresql_mut().set_role(MemberRole::Primary);
    let o = seen(true, false);
    let stopped = seen(false, false);
    let c = cluster(Some("node2"), vec![at("node1", "a"), at("node2", "b")]);
    assert_eq!(decide(&mut ha, c, &o), Order::Stop(StopMode::Fast));
    assert_eq!(ha.step(&stopped, Answer::Done, ""), Order::Rewind(1));
    assert_eq!(ha.step(&stopped, Answer::Failed, "diverged"), Order::RemoveData);
    assert_eq!(ha.step(&stopped, Answer::Done, ""), Order::Copy(1));
    assert_eq!(ha.member_connstr(1), "host=b port=5432 user=postgres");
    assert_eq!(ha.step(&stopped, Answer::Failed, "refused"), Order::Finish(Outcome::RejoinCopyFailed));
    assert_eq!(
        ha.describe(Outcome::RejoinCopyFailed, "refused").to_text(),
        "Error: Rejoin failed: rewind=diverged, basebackup=refused"
    );
}

#[test]
fn test_rewound_primary_becomes_a_replica() {
    let mut ha = agent(test_config("node1"));
    ha.postgresql_mut().set_role(MemberRole::Primary);
    let o = seen(true, false);
    let c = cluster(Some("node2"), vec![at("node1", "a"), at("node2", "b")]);
    assert_eq!(decide(&mut ha, c, &o), Order::Stop(StopMode::Fast));
    assert_eq!(ha.step(&o, Answer::Done, ""), Order::Rewind(1));
    assert_eq!(ha.step(&o, Answer::Done, ""), Order::WriteStandby(1));
    assert_eq!(
        ha.standby_conf(ha.member_connstr(1), StandbyReason::Rejoin),
        "# pg-ha managed standby configuration (rejoin)\nprimary_conninfo = 'host=b port=5432 user=replicator password= application_name=node1'\nrecovery_target_timeline = 'latest'\n"
    );
    assert_eq!(ha.step(&o, Answer::Failed, ""), Order::Start);
    assert_eq!(ha.step(&o, Answer::Done, ""), Order::Touch);
    assert_eq!(ha.step(&o, Answer::Done, ""), Order::Finish(Outcome::Rejoined(1)));
    assert_eq!(
        ha.describe(Outcome::Rejoined(1), "").to_text(),
        "Follower: rejoined as replica via pg_rewind, following (node2)"
    );
}

#[test]
fn test_replica_moves_to_its_new_upstream() {
    let mut ha = agent(test_config("node1"));
    let mut o = seen(true, true);
    o.auto_conf = Some("primary_conninfo = 'host=old port=5432 user=r'\n".to_string());
    o.auto_conf_age = Some(9);
    let c = || {
        let mut leader = at("node2", "b");
        leader.role = MemberRole::Primary;
        cluster(Some("node2"), vec![at("node1", "a"), leader])
    };
    // Written too short a time ago.
    assert_eq!(decide(&mut ha, c(), &o), Order::Touch);
    assert_eq!(ha.step(&o, Answer::Done, ""), Order::Finish(Outcome::Following));
    assert_eq!(
        ha.describe(Outcome::Following, "").to_text(),
        "Follower: no action. I am (node1), a secondary, following upstream (node2)"
    );
    o.auto_conf_age = Some(10);
    assert_eq!(decide(&mut ha, c(), &o), Order::Reconfigure(1));
    assert_eq!(ha.step(&o, Answer::Done, ""), Order::Stop(StopMode::Fast));
    assert_eq!(ha.step(&o, Answer::Done, ""), Order::Start);
    assert_eq!(ha.step(&o, Answer::Failed, "x"), Order::Touch);
}

#[test]
fn test_current_upstream() {
    assert_eq!(
        read_current_upstream("# x\n primary_conninfo = 'host=10.0.0.1 port=1'\r\n"),
        Some("10.0.0.1".to_string())
    );
    assert_eq!(read_current_upstream("primary_conninfo = 'port=1'\n"), None);
    assert_eq!(read_current_upstream("host=a\n"), None);
    assert_eq!(read_current_upstream(""), None);
}

#[test]
fn test_standby_that_does_not_start_is_brought_up_to_date() {
    let mut ha = agent(test_config("node1"));
    let o = seen(false, true);
    let c = || cluster(Some("node2"), vec![at("node1", "a"), at("node2", "b")]);
    for n in 1..4u32 {
        assert_eq!(decide(&mut ha, c(), &o), Order::Start);
        assert_eq!(ha.step(&o, Answer::Failed, "x"), Order::Finish(Outcome::StartFailed));
        assert_eq!(ha.start_fail_count, n);
    }
    assert_eq!(decide(&mut ha, c(), &o), Order::Rewind(1));
    assert_eq!(ha.start_fail_count, 0);
}

#[test]
fn test_designated_candidate_goes_first() {
    let mut ha = agent(test_config("node1"));
    let o = seen(true, true);
    let mut c = cluster(None, vec![member("node1", Some(9), StringMap::new())]);
    c.failover = Some(Failover {
        candidate: Some("node2".to_string()),
        leader: None,
        scheduled_at: None,
    });
    assert_eq!(decide(&mut ha, c, &o), Order::Finish(Outcome::Deferred));
    assert_eq!(
        ha.describe(Outcome::Deferred, "").to_text(),
        "Follower: deferring to designated candidate (node2)"
    );
}

#[test]
fn test_empty_node_clones() {
    let mut ha = agent(test_config("node1"));
    let mut o = seen(false, false);
    o.data_dir = DataDir::Empty;
    let c = cluster(Some("node2"), vec![at("node1", "a"), at("node2", "b")]);
    assert_eq!(decide(&mut ha, c, &o), Order::Clone);
    assert_eq!(ha.step(&o, Answer::Done, ""), Order::Start);
    assert_eq!(ha.step(&o, Answer::Done, ""), Order::Finish(Outcome::Cloned));
    o.data_dir = DataDir::Fault;
    let c = cluster(Some("node2"), vec![at("node1", "a")]);
    assert_eq!(decide(&mut ha, c, &o), Order::Finish(Outcome::DataDirFault));
}

#[test]
fn test_cluster_wide_configuration_is_taken_over() {
    let mut ha = agent(test_config("node1"));
    let o = seen(true, true);
    let c = cluster(Some("node2"), vec![member("node1", None, StringMap::new())]);
    assert_eq!(ha.begin(Some(c)), Order::ReadConfig);
    let mut parameters = StringMap::new();
    parameters.insert("work_mem".to_string(), "64MB".to_string());
    parameters.insert("max_connections".to_string(), "200".to_string());
    let mut g = GlobalConfig::default();
    g.loop_wait = Some(5);
    g.pause = Some(true);
    g.postgresql = Some(pg_ha::dynamic_config::PostgresqlDynamicConfig { parameters });
    assert_eq!(ha.process_dynamic_config(Some(g), &o), Order::Reload);
    assert_eq!(ha.config().loop_wait, 5);
    assert_eq!(ha.config().ttl, 30);
    assert!(ha.is_paused());
    assert!(ha.pending_restart());
    assert!(ha.dynamic_config_state().pending_restart_params.contains_key("max_connections"));
    assert_eq!(ha.step(&o, Answer::Failed, ""), Order::Touch);
    assert_eq!(ha.step(&o, Answer::Done, ""), Order::Finish(Outcome::Following));
}

#[test]
fn test_standby_leader_follows_the_remote() {
    let mut ha = agent(test_config("node1"));
    let mut o = seen(true, true);
    o.auto_conf = Some(
        "# x\nprimary_conninfo = 'host=remote port=5433 user=r'\n".to_string(),
    );
    let c = || cluster(Some("node1"), vec![member("node1", None, StringMap::new())]);
    assert_eq!(ha.begin(Some(c())), Order::ReadConfig);
    let mut g = GlobalConfig::default();
    g.standby_cluster = Some(StandbyClusterConfig {
        host: "remote".to_string(),
        port: 5433,
        primary_slot_name: None,
        restore_command: None,
        create_replica_methods: vec![],
    });
    assert_eq!(ha.process_dynamic_config(Some(g), &o), Order::Renew);
    assert_eq!(ha.step(&o, Answer::Done, ""), Order::Touch);
    assert_eq!(ha.step(&o, Answer::Done, ""), Order::Finish(Outcome::StandbyLeading));
    assert_eq!(ha.postgresql().role(), &MemberRole::StandbyLeader);
    assert!(ha.is_standby_cluster());
    assert_eq!(
        ha.describe(Outcome::StandbyLeading, "").to_text(),
        "Leader: no action. I am (node1), the standby leader replicating from remote:5433"
    );
    // One that follows another host is to be reconfigured.
    let mut elsewhere = seen(true, true);
    elsewhere.auto_conf = Some("primary_conninfo = 'host=node9 port=5433'\n".to_string());
    assert_eq!(decide(&mut ha, c(), &elsewhere), Order::Renew);
    assert_eq!(ha.step(&elsewhere, Answer::Done, ""), Order::Touch);
    assert_eq!(
        ha.step(&elsewhere, Answer::Done, ""),
        Order::Finish(Outcome::StandbyMisconfigured)
    );
    assert_eq!(
        ha.describe(Outcome::StandbyMisconfigured, "").to_text(),
        "Leader: standby leader (node1), reconfiguration needed for remote remote:5433"
    );

    // The leader turns it into a cluster of its own.
    let no = || Err("no".to_string());
    let (phase, order) = ha.cascade_promote(CascadePhase::Asked, Ok(()));
    assert_eq!(phase, CascadePhase::Storing);
    match order {
        CascadeOrder::StoreConfig(g) => assert!(g.standby_cluster.is_none()),
        other => panic!("not stored: {other:?}"),
    }
    // Nothing is promoted before the configuration is stored.
    assert_eq!(cascade_end(ha.cascade_promote(phase, no())), "Cascade promote failed: no");
    let (phase, order) = ha.cascade_promote(phase, Ok(()));
    assert_eq!(phase, CascadePhase::Promoting);
    assert!(matches!(order, CascadeOrder::Promote));
    assert_eq!(cascade_end(ha.cascade_promote(phase, no())), "Cascade promote failed: no");
    assert!(ha.is_standby_cluster());
    ha.dynamic_config_state.pending_restart = true;
    assert_eq!(cascade_end(ha.cascade_promote(phase, Ok(()))), "");
    assert!(!ha.is_standby_cluster());
    assert!(ha.postgresql().is_primary());
    assert!(ha.pending_restart());
    assert!(matches!(
        ha.cascade_promote(CascadePhase::Over, Ok(())),
        (CascadePhase::Over, CascadeOrder::Nothing)
    ));
    assert_eq!(
        cascade_end(ha.cascade_promote(CascadePhase::Asked, Ok(()))),
        "Cannot cascade promote: not in standby cluster mode"
    );
    ha.is_leader = false;
    assert_eq!(
        cascade_end(ha.cascade_promote(CascadePhase::Asked, Ok(()))),
        "Cannot cascade promote: not the leader"
    );
}

/// Why it failed; empty if it did not.
fn cascade_end(step: (CascadePhase, CascadeOrder)) -> String {
    match step {
        (CascadePhase::Over, CascadeOrder::Finish(Ok(()))) => String::new(),
        (CascadePhase::Over, CascadeOrder::Finish(Err(e))) => e,
        other => panic!("not over: {other:?}"),
    }
}

#[test]
fn test_heartbeat() {
    let ha = agent(test_config("node1"));
    let body = ha.touch_member(Some(WalStatus {
        timeline: Some(2),
        wal_position: 77,
        in_recovery: true,
    }));
    let text = |key: &str| body.get(key).unwrap().as_str().unwrap().to_string();
    assert_eq!(text("name"), "node1");
    assert_eq!(text("conn_url"), "host=127.0.0.1 port=5432 dbname=postgres user=postgres");
    assert_eq!(text("api_url"), "http://127.0.0.1:8008");
    assert_eq!(text("state"), "unknown");
    assert_eq!(text("role"), "uninitialized");
    assert_eq!(body.get("wal_position").unwrap().as_u64(), Some(77));
    assert_eq!(body.get("timeline").unwrap().as_u64(), Some(2));
    assert!(ha.touch_member(None).get("wal_position").is_none());
}

#[test]
fn test_tags_are_published() {
    let mut config = test_config("node1");
    config.tags.noloadbalance = true;
    config.tags.noclone = true;
    config.tags.failover_priority = 7;
    config.tags.replicatefrom = some("node2");
    let ha = agent(config);
    let body = ha.touch_member(None);
    let tags = body.get("tags").unwrap();
    assert_eq!(tags.get("noloadbalance").unwrap().as_bool(), Some(true));
    assert_eq!(tags.get("noclone").unwrap().as_bool(), Some(true));
    assert_eq!(tags.get("nosync").unwrap().as_bool(), Some(false));
    assert_eq!(tags.get("failover_priority").unwrap().as_u64(), Some(7));
    assert_eq!(tags.get("sync_priority").unwrap().as_u64(), Some(0));
    assert_eq!(tags.get("replicatefrom").unwrap().as_str(), Some("node2"));

    // The node itself keeps reads away.
    let mut s = NodeState::new("node1".to_string(), "main".to_string(), 30);
    assert!(!s.is_noloadbalance());
    s.update(&ha, true, &CycleResult::Follower("x".to_string()));
    assert!(s.is_noloadbalance());
    assert_eq!(s.health_replica(None).status, 503);
}

#[test]
fn test_node_that_does_not_stream_is_told_of_no_connection() {
    let mut config = test_config("node1");
    config.tags.nostream = true;
    let ha = agent(config);
    let conf = ha.standby_conf("host=b port=5432", StandbyReason::Rejoin);
    assert_eq!(
        conf,
        "# pg-ha managed standby configuration (rejoin)\nrecovery_target_timeline = 'latest'\n"
    );
    assert!(read_conninfo(&conf).is_none());
    let streaming = agent(test_config("node1")).standby_conf("host=b", StandbyReason::Standby);
    assert_eq!(
        read_conninfo(&streaming).unwrap(),
        "host=b port=5432 user=replicator password= application_name=node1"
    );
}

#[test]
fn test_results_as_text() {
    let all = vec![
        (CycleResult::Leader("a".to_string()), "Leader: a"),
        (CycleResult::Follower("b".to_string()), "Follower: b"),
        (CycleResult::Acquiring("c".to_string()), "Acquiring: c"),
        (CycleResult::Error("d".to_string()), "Error: d"),
    ];
    for (r, t) in all {
        assert_eq!(r.to_text(), t);
    }
}

fn leading() -> Ha {
    let mut ha = agent(test_config("node1"));
    ha.is_leader = true;
    let mut down = at("node3", "c");
    down.state = MemberState::Stopped;
    let mut barred = at("node4", "d");
    barred.tags = tag("nofailover", Json::Bool(true));
    ha.cluster = cluster(
        Some("node1"),
        vec![at("node1", "a"), at("node2", "b"), down, barred],
    );
    ha
}

fn some(s: &str) -> Option<String> {
    Some(s.to_string())
}

#[test]
fn test_switchover_at_once() {
    let mut ha = leading();
    let (answer, steps) = ha.handle_switchover_command(some("node1"), some("node2"), None);
    assert_eq!(answer.status, CommandStatus::Accepted);
    assert_eq!(answer.message, "Switchover initiated, leader lock released");
    let conf = "# pg-ha managed (switchover demotion)\nprimary_conninfo = 'host=b port=5432 user=replicator password= application_name=node1'\nrecovery_target_timeline = 'latest'\n";
    assert_eq!(
        steps,
        vec![
            Step::StoreFailover("{\"candidate\":\"node2\",\"leader\":\"node1\"}".to_string()),
            Step::ReleaseLock,
            Step::Stop(StopMode::Fast),
            Step::MarkStandby,
            Step::WriteConf(conf.to_string()),
        ]
    );
    assert!(!ha.is_leader);
    assert_eq!(ha.postgresql.role, MemberRole::Replica);
}

#[test]
fn test_switchover_without_candidate_or_lock() {
    let mut ha = leading();
    ha.cluster.leader = None;
    let (_, steps) = ha.handle_switchover_command(None, None, None);
    assert_eq!(
        steps,
        vec![
            Step::StoreFailover("{\"candidate\":null,\"leader\":\"node1\"}".to_string()),
            Step::Stop(StopMode::Fast),
            Step::MarkStandby,
        ]
    );
}

#[test]
fn test_switchover_turned_down() {
    let refusal = |ha: &mut Ha, leader, candidate| {
        let (answer, steps) = ha.handle_switchover_command(leader, candidate, None);
        assert_eq!(answer.status, CommandStatus::Rejected);
        assert!(steps.is_empty());
        answer.message
    };
    let mut ha = leading();
    assert_eq!(
        refusal(&mut ha, some("other"), None),
        "Leader mismatch: expected 'other', actual 'node1'"
    );
    assert_eq!(refusal(&mut ha, None, some("node9")), "Candidate 'node9' not found");
    assert_eq!(refusal(&mut ha, None, some("node3")), "Candidate 'node3' is not running");
    assert_eq!(refusal(&mut ha, None, some("node4")), "Candidate 'node4' has nofailover tag");
    assert!(ha.is_leader());
    ha.is_leader = false;
    assert_eq!(refusal(&mut ha, None, None), "This node is not the leader");
}

#[test]
fn test_switchover_later() {
    let mut ha = leading();
    let (answer, steps) = ha.handle_switchover_command(None, None, some("2030-01-01T00:00:00Z"));
    assert_eq!(answer.message, "Switchover scheduled");
    assert!(steps.is_empty());
    assert!(ha.pending_switchover.is_some());
    assert!(ha.is_leader());
    assert_eq!(ha.handle_cancel_command().message, "Scheduled switchover cancelled");
    assert!(ha.pending_switchover.is_none());
}

#[test]
fn test_scheduled_switchover_waits_for_its_time() {
    let mut ha = leading();
    assert!(ha.take_due_switchover(u64::MAX).is_none());
    ha.handle_switchover_command(None, some("node2"), some("2030-01-01T00:00:00Z"));
    assert!(ha.take_due_switchover(1_893_455_999).is_none());
    assert!(ha.pending_switchover.is_some());
    match ha.take_due_switchover(1_893_456_000) {
        Some(ManagementCommand::Switchover { leader, candidate, scheduled_at }) => {
            assert_eq!(leader, None);
            assert_eq!(candidate.as_deref(), Some("node2"));
            assert_eq!(scheduled_at, None);
        }
        other => panic!("not due: {other:?}"),
    }
    assert!(ha.pending_switchover.is_none());
    // A time that cannot be read never comes.
    ha.handle_switchover_command(None, None, some("tomorrow"));
    assert!(ha.take_due_switchover(u64::MAX).is_none());
}

#[test]
fn test_names_are_escaped_in_requests() {
    let mut config = test_config("no\"de\n1");
    config.tags.nofailover = false;
    let mut ha = agent(config);
    ha.is_leader = true;
    let (_, steps) = ha.handle_switchover_command(None, None, None);
    assert_eq!(
        steps[0],
        Step::StoreFailover("{\"candidate\":null,\"leader\":\"no\\\"de\\n1\"}".to_string())
    );
}

#[test]
fn test_failover_request() {
    let ha = leading();
    let (answer, text) = ha.handle_failover_command(some("node2"));
    assert_eq!(answer.message, "Failover request submitted");
    assert_eq!(text.unwrap(), "{\"candidate\":\"node2\"}");
    let (_, text) = ha.handle_failover_command(None);
    assert_eq!(text.unwrap(), "{\"candidate\":null}");
    let (answer, text) = ha.handle_failover_command(some("node9"));
    assert_eq!(answer.status, CommandStatus::Rejected);
    assert_eq!(answer.message, "Candidate 'node9' not found");
    assert!(text.is_none());
}

#[test]
fn test_restart_request() {
    let mut ha = leading();
    ha.dynamic_config_state.pending_restart = true;
    let (phase, order) = ha.handle_restart_command(RestartPhase::Asked, Ok(()));
    assert_eq!(phase, RestartPhase::Stopping);
    assert!(matches!(order, RequestOrder::Stop(StopMode::Fast)));
    // It is not started if it was not stopped.
    let (end, order) = ha.handle_restart_command(phase, Err("x".to_string()));
    assert_eq!(end, RestartPhase::Over);
    assert_eq!(request_end(order), (CommandStatus::Error, "Stop failed: x".to_string()));
    let (phase, order) = ha.handle_restart_command(phase, Ok(()));
    assert_eq!(phase, RestartPhase::Starting);
    assert!(matches!(order, RequestOrder::Start));
    let (_, order) = ha.handle_restart_command(phase, Err("y".to_string()));
    assert_eq!(request_end(order), (CommandStatus::Error, "Start failed: y".to_string()));
    assert!(ha.pending_restart());
    let (end, order) = ha.handle_restart_command(phase, Ok(()));
    assert_eq!(end, RestartPhase::Over);
    assert_eq!(
        request_end(order),
        (CommandStatus::Accepted, "PostgreSQL restarted".to_string())
    );
    assert!(!ha.pending_restart());
    assert!(matches!(ha.handle_restart_command(end, Ok(())).1, RequestOrder::Nothing));
}

fn request_end(order: RequestOrder) -> (CommandStatus, String) {
    match order {
        RequestOrder::Finish(r) => (r.status, r.message),
        other => panic!("not over: {other:?}"),
    }
}

#[test]
fn test_reinitialize_request() {
    let mut ha = leading();
    let (phase, order) = ha.handle_reinitialize_command(ReinitializePhase::Asked, Ok(()));
    assert_eq!(phase, ReinitializePhase::Over);
    assert_eq!(
        request_end(order),
        (CommandStatus::Rejected, "Cannot reinitialize the leader node".to_string())
    );
    ha.is_leader = false;
    let (phase, order) = ha.handle_reinitialize_command(ReinitializePhase::Asked, Ok(()));
    assert!(matches!(order, RequestOrder::Stop(StopMode::Immediate)));
    // The data goes even if the stop has failed.
    let (phase, order) = ha.handle_reinitialize_command(phase, Err("x".to_string()));
    assert_eq!(phase, ReinitializePhase::Removing);
    assert!(matches!(order, RequestOrder::RemoveData));
    let (_, order) = ha.handle_reinitialize_command(phase, Err("busy".to_string()));
    assert_eq!(
        request_end(order),
        (CommandStatus::Error, "Remove data dir failed: busy".to_string())
    );
    let (phase, order) = ha.handle_reinitialize_command(phase, Ok(()));
    assert_eq!(
        request_end(order),
        (CommandStatus::Accepted, "Node reinitialized, will clone on next cycle".to_string())
    );
    assert!(matches!(ha.handle_reinitialize_command(phase, Ok(())).1, RequestOrder::Nothing));
}

#[test]
fn test_state_for_the_api() {
    let mut ha = leading();
    ha.postgresql_mut().set_role(MemberRole::Primary);
    let mut s = NodeState::new("node1".to_string(), "main".to_string(), 30);
    s.update(&ha, true, &CycleResult::Leader("x".to_string()));
    assert!(s.is_leader);
    assert!(s.is_primary_with_lock());
    assert!(s.is_live());
    let seen = s.dcs_last_seen;
    assert!(seen.is_some());
    s.update(&ha, false, &CycleResult::Error("DCS unreachable".to_string()));
    assert_eq!(s.dcs_last_seen, seen);
    assert_eq!(s.state, MemberState::Stopped);
}

#[test]
fn test_shutdown_of_a_leader() {
    let mut ha = leading();
    assert_eq!(
        ha.shutdown(),
        vec![Step::Checkpoint, Step::ReleaseLock, Step::Stop(StopMode::Fast)]
    );
    ha.cluster.leader = None;
    assert_eq!(ha.shutdown(), vec![Step::Checkpoint, Step::Stop(StopMode::Fast)]);
    ha = leading();
    ha.is_leader = false;
    assert_eq!(ha.shutdown(), vec![Step::Stop(StopMode::Fast)]);
}

#[test]
fn test_cloning_step_by_step() {
    let mut ha = agent(test_config("node1"));
    let failed = |order: CloneOrder| match order {
        CloneOrder::Finish(BootstrapResult::Failed(e)) => e,
        other => panic!("not failed: {other:?}"),
    };
    let (phase, order) = Bootstrap::clone_from_member(&ha, ClonePhase::Asked, Ok(()));
    assert_eq!(failed(order), "No suitable clone source found");
    let (_, order) = Bootstrap::clone_from_member(&ha, phase, Ok(()));
    assert!(matches!(order, CloneOrder::Nothing));

    ha.cluster = cluster(Some("node2"), vec![at("node2", "b")]);
    let source = ha.cluster.members[0].conn_url.clone();
    let (phase, order) = Bootstrap::clone_from_member(&ha, ClonePhase::Asked, Ok(()));
    assert!(matches!(order, CloneOrder::Copy(s) if s == source));
    let (phase, order) = Bootstrap::clone_from_member(&ha, phase, Ok(()));
    assert!(matches!(order, CloneOrder::WriteSettings));
    let (phase, order) = Bootstrap::clone_from_member(&ha, phase, Ok(()));
    assert!(matches!(order, CloneOrder::MarkStandby));
    let (phase, order) = Bootstrap::clone_from_member(&ha, phase, Err("x".to_string()));
    let conf = ha.standby_conf(&source, StandbyReason::Standby);
    assert!(matches!(order, CloneOrder::WriteConf(c) if c == conf));
    let (phase, order) = Bootstrap::clone_from_member(&ha, phase, Ok(()));
    match order {
        CloneOrder::Finish(r) => assert_eq!(r.answer_to_clone(), Answer::Done),
        other => panic!("not cloned: {other:?}"),
    }
    assert!(matches!(phase, ClonePhase::Over));

    // A copy that failed is removed.
    let (phase, order) =
        Bootstrap::clone_from_member(&ha, ClonePhase::Copying, Err("gone".to_string()));
    assert!(matches!(order, CloneOrder::CleanUp));
    let (_, order) = Bootstrap::clone_from_member(&ha, phase, Ok(()));
    assert_eq!(failed(order), "Clone from node2 failed: gone");
}

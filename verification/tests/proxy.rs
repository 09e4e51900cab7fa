//! The proxy.

use std::time::Duration;

use pg_ha::proxy::{
    BackendAddr, CheckResult, HealthCheckConfig, PgBackend, PgProxy, Places, ProxyMode, Route,
    Track, UpstreamState,
};

fn addr(ip: &str) -> BackendAddr {
    BackendAddr { ip: ip.to_string(), port: 5432 }
}

fn backend(ip: &str, name: &str, is_primary: bool, is_healthy: bool) -> PgBackend {
    PgBackend {
        addr: addr(ip),
        name: name.into(),
        is_primary,
        is_healthy,
        api_url: format!("http://{name}:8008"),
    }
}

fn proxy() -> PgProxy {
    PgProxy::new(addr("0.0.0.0"), addr("0.0.0.0"))
}

fn check(name: &str, rw_ok: bool, ro_ok: bool) -> CheckResult {
    CheckResult { name: name.to_string(), rw_ok, ro_ok }
}

#[test]
fn test_upstream_state_primary() {
    let state = UpstreamState {
        backends: vec![
            backend("10.0.0.1", "node1", true, true),
            backend("10.0.0.2", "node2", false, true),
        ],
    };
    assert_eq!(state.primary().unwrap().name, "node1");
    assert_eq!(state.replicas().len(), 1);
    assert_eq!(state.replicas()[0].name, "node2");
}

#[test]
fn test_upstream_state_no_primary() {
    let state = UpstreamState {
        backends: vec![backend("10.0.0.2", "node2", false, true)],
    };
    assert!(state.primary().is_none());
}

#[test]
fn test_upstream_state_unhealthy_excluded() {
    let state = UpstreamState {
        backends: vec![
            backend("10.0.0.1", "node1", true, false),
            backend("10.0.0.2", "node2", false, false),
        ],
    };
    assert!(state.primary().is_none());
    assert!(state.replicas().is_empty());
}

#[test]
fn test_round_robin_selection() {
    let state = UpstreamState {
        backends: vec![
            backend("10.0.0.2", "node2", false, true),
            backend("10.0.0.3", "node3", false, true),
        ],
    };
    let replicas = state.replicas();
    assert_eq!(replicas[0 % 2].name, "node2");
    assert_eq!(replicas[1 % 2].name, "node3");
    assert_eq!(replicas[2 % 2].name, "node2");
    assert_eq!(state.select(ProxyMode::ReadOnly, 0).unwrap().name, "node2");
    assert_eq!(state.select(ProxyMode::ReadOnly, 1).unwrap().name, "node3");
    assert_eq!(state.select(ProxyMode::ReadOnly, 2).unwrap().name, "node2");
    assert!(state.select(ProxyMode::ReadWrite, 0).is_none());
}

#[test]
fn test_health_check_config_defaults() {
    let config = HealthCheckConfig::default();
    assert_eq!(Duration::from_secs(config.interval), Duration::from_secs(3));
    assert_eq!(config.fall, 3);
    assert_eq!(config.rise, 2);
    assert_eq!(config.max_connections, 300);
    assert!(config.shutdown_on_down);
}

#[test]
fn test_reads_fall_back_to_the_primary() {
    let state = UpstreamState {
        backends: vec![
            backend("10.0.0.2", "node2", false, false),
            backend("10.0.0.1", "node1", true, true),
        ],
    };
    assert_eq!(state.select(ProxyMode::ReadOnly, 5).unwrap().name, "node1");
}

#[test]
fn test_fall_and_rise() {
    let mut t = Track { healthy: false, fails: 0, successes: 0 };
    t.observe(true, 2, 3);
    assert!(!t.healthy);
    t.observe(false, 2, 3);
    t.observe(true, 2, 3);
    assert!(!t.healthy);
    t.observe(true, 2, 3);
    assert!(t.healthy);
    t.observe(false, 2, 3);
    t.observe(false, 2, 3);
    t.observe(true, 2, 3);
    t.observe(false, 2, 3);
    t.observe(false, 2, 3);
    assert!(t.healthy);
    t.observe(false, 2, 3);
    assert_eq!(t, Track { healthy: false, fails: 3, successes: 0 });
}

#[test]
fn test_checks_take_over_from_the_cluster_state() {
    let mut p = proxy();
    p.update_backends(vec![
        backend("10.0.0.1", "node1", true, true),
        backend("10.0.0.2", "node2", false, true),
    ]);
    assert_eq!(p.upstream.primary().unwrap().name, "node1");
    // From now on the cluster's view is not used any longer.
    p.update_backends(vec![
        backend("10.0.0.9", "node1", false, false),
        backend("10.0.0.2", "node2", true, true),
    ]);
    assert_eq!(p.upstream.primary().unwrap().name, "node1");
    assert_eq!(p.health_state.get("node1").unwrap().addr.ip, "10.0.0.9");

    let round = vec![check("node1", false, true), check("node2", true, true)];
    assert!(p.can_count(2));
    assert!(p.apply_checks(&round).is_empty());
    assert_eq!(p.upstream.primary().unwrap().name, "node1");
    p.apply_checks(&round);
    assert_eq!(p.upstream.primary().unwrap().name, "node2");
    assert_eq!(p.upstream.replicas()[0].name, "node1");
    match p.route(ProxyMode::ReadWrite, 0) {
        Route::To(name, a) => {
            assert_eq!(name, "node2");
            assert_eq!(a.ip, "10.0.0.2");
        }
        _ => panic!("expected a route"),
    }
}

#[test]
fn test_sessions_are_closed_when_a_backend_falls() {
    let mut p = proxy();
    p.update_backends(vec![backend("10.0.0.1", "node1", true, true)]);
    let up = vec![check("node1", true, false)];
    let down = vec![check("node1", false, false), check("stranger", false, false)];
    p.apply_checks(&up);
    p.apply_checks(&up);
    assert!(p.apply_checks(&down).is_empty());
    assert!(p.apply_checks(&down).is_empty());
    assert_eq!(p.apply_checks(&down), vec!["node1"]);
    assert!(matches!(p.route(ProxyMode::ReadWrite, 0), Route::Nowhere));
}

#[test]
fn test_absent_backends_are_forgotten() {
    let mut p = proxy();
    p.update_backends(vec![
        backend("10.0.0.1", "node1", true, true),
        backend("10.0.0.2", "node2", false, true),
    ]);
    let up = vec![check("node1", true, false)];
    p.apply_checks(&up);
    p.update_backends(vec![backend("10.0.0.1", "node1", true, true)]);
    assert!(!p.health_state.contains_key("node2"));
    assert_eq!(p.health_state.get("node1").unwrap().rw.successes, 1);
    // The upstream still lists it until the next change.
    match p.route(ProxyMode::ReadOnly, 0) {
        Route::Unknown(name) => assert_eq!(name, "node2"),
        _ => panic!("expected an unknown backend"),
    }
}

#[test]
fn test_address_stands_in_for_a_missing_url() {
    let mut p = proxy();
    let mut b = backend("10.0.0.1", "node1", true, true);
    b.api_url = String::new();
    p.update_backends(vec![b]);
    assert_eq!(p.health_state.get("node1").unwrap().api_url, "http://10.0.0.1:8008");
}

#[test]
fn test_connections_stay_within_the_limit() {
    let mut places = Places::new(2);
    assert!(places.enter());
    assert!(places.enter());
    assert!(!places.enter());
    assert_eq!(places, Places { limit: 2, taken: 2 });
    places.leave();
    assert_eq!(places.taken, 1);
    assert!(places.enter());
    assert!(!places.enter());
    assert!(!Places::new(0).enter());
}

#[test]
fn test_checks_in_a_row_count_from_any_state() {
    // Up, with one failed check: two more make three in a row.
    let mut t = Track { healthy: true, fails: 1, successes: 0 };
    t.observe(false, 2, 3);
    assert!(t.healthy);
    t.observe(false, 2, 3);
    assert!(!t.healthy);
    // Down after failed checks: two good ones in a row.
    t.observe(true, 2, 3);
    assert!(!t.healthy);
    t.observe(true, 2, 3);
    assert!(t.healthy);
}

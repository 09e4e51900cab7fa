//! Staying primary without the store.

use std::time::{Duration, Instant};

use pg_ha::failsafe::{is_fresh, Failsafe, FailsafeResult};
use pg_ha::strmap::StringMap;

fn two_members() -> StringMap<String> {
    let mut m = StringMap::new();
    m.insert("node1".to_string(), "http://127.0.0.1:8008".to_string());
    m.insert("node2".to_string(), "http://127.0.0.99:9999".to_string());
    m
}

#[test]
fn test_failsafe_disabled_by_default() {
    let fs = Failsafe::new(30);
    assert!(!fs.is_enabled());
    assert!(!fs.is_active());
}

#[test]
fn test_failsafe_enable_disable() {
    let mut fs = Failsafe::new(30);
    fs.set_enabled(true);
    assert!(fs.is_enabled());
    fs.set_enabled(false);
    assert!(!fs.is_enabled());
}

#[test]
fn test_failsafe_disabled_returns_disabled() {
    let mut fs = Failsafe::new(30);
    let result = fs.check_topology("node1", &vec![]);
    assert!(matches!(result, FailsafeResult::Disabled));
}

#[test]
fn test_failsafe_no_members_fails() {
    let mut fs = Failsafe::new(30);
    fs.set_enabled(true);
    let result = fs.check_topology("node1", &vec![]);
    match result {
        FailsafeResult::NotAllConfirmed { failed } => assert_eq!(failed, vec!["no members"]),
        _ => panic!("Expected NotAllConfirmed"),
    }
}

#[test]
fn test_failsafe_unreachable_member_fails() {
    let mut fs = Failsafe::new(30);
    fs.set_enabled(true);
    fs.update_members(two_members());
    let pings = fs.pings("node1");
    assert_eq!(pings.len(), 1);
    assert_eq!(pings[0].url, "http://127.0.0.99:9999/failsafe");
    let result = fs.check_topology("node1", &vec![false]);
    match result {
        FailsafeResult::NotAllConfirmed { failed } => {
            assert!(failed.contains(&"node2".to_string()));
        }
        _ => panic!("Expected NotAllConfirmed"),
    }
    assert!(!fs.is_active());
}

#[test]
fn test_is_active_after_success() {
    let mut fs = Failsafe::new(30);
    assert!(!fs.is_active());
    fs.last_success = Some(Instant::now());
    assert!(fs.is_active());
}

#[test]
fn test_is_active_expired() {
    let mut fs = Failsafe::new(1); // 1 second TTL
    fs.last_success = Some(Instant::now() - Duration::from_secs(5));
    assert!(!fs.is_active()); // expired
}

#[test]
fn test_all_members_confirm() {
    let mut fs = Failsafe::new(30);
    fs.set_enabled(true);
    fs.update_members(two_members());
    assert!(matches!(fs.check_topology("node1", &vec![true]), FailsafeResult::AllConfirmed));
    assert!(fs.is_active());
    // Seen from outside of the cluster both members are asked, and a missing answer refuses.
    match fs.check_topology("node3", &vec![true]) {
        FailsafeResult::NotAllConfirmed { failed } => assert_eq!(failed, vec!["node2"]),
        _ => panic!("Expected NotAllConfirmed"),
    }
}

#[test]
fn test_confirmation_holds_for_its_time() {
    assert!(is_fresh(1_999_999_999, 2));
    assert!(!is_fresh(2_000_000_000, 2));
}

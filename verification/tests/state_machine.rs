//! The replicated key-value store.

use pg_ha::clock::current_millis;
use pg_ha::state_machine::{KvStateMachine, Request, Response};

/// A reasonable test timestamp (approx 2023-11-14)
const TEST_NOW: u64 = 1_700_000_000_000;

fn make_set(key: &str, value: &str) -> Request {
    Request::SetKey {
        key: key.to_string(),
        value: value.to_string(),
        ttl: None,
        prev_exist: None,
        prev_value: None,
        prev_version: None,
        now: TEST_NOW,
    }
}

fn make_set_with_ttl(key: &str, value: &str, ttl: u64) -> Request {
    Request::SetKey {
        key: key.to_string(),
        value: value.to_string(),
        ttl: Some(ttl),
        prev_exist: None,
        prev_value: None,
        prev_version: None,
        now: TEST_NOW,
    }
}

fn make_set_prev_exist(key: &str, value: &str, prev_exist: bool) -> Request {
    Request::SetKey {
        key: key.to_string(),
        value: value.to_string(),
        ttl: None,
        prev_exist: Some(prev_exist),
        prev_value: None,
        prev_version: None,
        now: TEST_NOW,
    }
}

fn make_set_prev_value(key: &str, value: &str, prev_value: &str) -> Request {
    Request::SetKey {
        key: key.to_string(),
        value: value.to_string(),
        ttl: None,
        prev_exist: None,
        prev_value: Some(prev_value.to_string()),
        prev_version: None,
        now: TEST_NOW,
    }
}

fn make_delete(key: &str) -> Request {
    Request::Delete {
        key: key.to_string(),
        prev_value: None,
        recursive: false,
    }
}

fn make_delete_prev_value(key: &str, prev_value: &str) -> Request {
    Request::Delete {
        key: key.to_string(),
        prev_value: Some(prev_value.to_string()),
        recursive: false,
    }
}

fn make_delete_recursive(prefix: &str) -> Request {
    Request::Delete {
        key: prefix.to_string(),
        prev_value: None,
        recursive: true,
    }
}

// Basic set/get/delete

#[test]
fn test_set_and_get() {
    let mut sm = KvStateMachine::new();
    let resp = sm.apply(&make_set("/leader", "node1"), 1);
    assert_eq!(resp, Response::Done { version: 1 });

    let entry = sm.get("/leader").unwrap();
    assert_eq!(entry.value, "node1");
    assert_eq!(entry.version, 1);
}

#[test]
fn test_overwrite() {
    let mut sm = KvStateMachine::new();
    sm.apply(&make_set("/key", "v1"), 1);
    sm.apply(&make_set("/key", "v2"), 2);

    let entry = sm.get("/key").unwrap();
    assert_eq!(entry.value, "v2");
    assert_eq!(entry.version, 2);
}

#[test]
fn test_delete() {
    let mut sm = KvStateMachine::new();
    sm.apply(&make_set("/key", "v1"), 1);
    let resp = sm.apply(&make_delete("/key"), 2);
    assert_eq!(resp, Response::Done { version: 2 });
    assert!(sm.get("/key").is_none());
}

#[test]
fn test_delete_nonexistent() {
    let mut sm = KvStateMachine::new();
    let resp = sm.apply(&make_delete("/nope"), 1);
    assert_eq!(resp, Response::NotChanged);
}

#[test]
fn test_delete_recursive() {
    let mut sm = KvStateMachine::new();
    sm.apply(&make_set("/members/a", "a"), 1);
    sm.apply(&make_set("/members/b", "b"), 2);
    sm.apply(&make_set("/leader", "x"), 3);

    let resp = sm.apply(&make_delete_recursive("/members/"), 4);
    assert_eq!(resp, Response::Done { version: 4 });
    assert!(sm.get("/members/a").is_none());
    assert!(sm.get("/members/b").is_none());
    assert!(sm.get("/leader").is_some()); // not under /members/
}

// CAS: prev_exist

#[test]
fn test_cas_prev_exist_false_succeeds_when_absent() {
    let mut sm = KvStateMachine::new();
    let resp = sm.apply(&make_set_prev_exist("/leader", "node1", false), 1);
    assert_eq!(resp, Response::Done { version: 1 });
}

#[test]
fn test_cas_prev_exist_false_fails_when_present() {
    let mut sm = KvStateMachine::new();
    sm.apply(&make_set("/leader", "node1"), 1);
    let resp = sm.apply(&make_set_prev_exist("/leader", "node2", false), 2);
    assert_eq!(resp, Response::NotChanged);
    // Value unchanged
    assert_eq!(sm.get("/leader").unwrap().value, "node1");
}

#[test]
fn test_cas_prev_exist_true_succeeds_when_present() {
    let mut sm = KvStateMachine::new();
    sm.apply(&make_set("/leader", "node1"), 1);
    let resp = sm.apply(&make_set_prev_exist("/leader", "node2", true), 2);
    assert_eq!(resp, Response::Done { version: 2 });
    assert_eq!(sm.get("/leader").unwrap().value, "node2");
}

#[test]
fn test_cas_prev_exist_true_fails_when_absent() {
    let mut sm = KvStateMachine::new();
    let resp = sm.apply(&make_set_prev_exist("/leader", "node1", true), 1);
    assert_eq!(resp, Response::NotChanged);
}

// CAS: prev_value

#[test]
fn test_cas_prev_value_succeeds() {
    let mut sm = KvStateMachine::new();
    sm.apply(&make_set("/leader", "node1"), 1);
    let resp = sm.apply(&make_set_prev_value("/leader", "node1", "node1"), 2);
    assert_eq!(resp, Response::Done { version: 2 });
}

#[test]
fn test_cas_prev_value_fails_wrong_value() {
    let mut sm = KvStateMachine::new();
    sm.apply(&make_set("/leader", "node1"), 1);
    let resp = sm.apply(&make_set_prev_value("/leader", "node2", "wrong"), 2);
    assert_eq!(resp, Response::NotChanged);
}

#[test]
fn test_cas_prev_value_fails_key_absent() {
    let mut sm = KvStateMachine::new();
    let resp = sm.apply(&make_set_prev_value("/leader", "node1", "anything"), 1);
    assert_eq!(resp, Response::NotChanged);
}

#[test]
fn test_cas_delete_with_prev_value() {
    let mut sm = KvStateMachine::new();
    sm.apply(&make_set("/leader", "node1"), 1);

    // Wrong prev_value → no delete
    let resp = sm.apply(&make_delete_prev_value("/leader", "wrong"), 2);
    assert_eq!(resp, Response::NotChanged);
    assert!(sm.get("/leader").is_some());

    // Correct prev_value → delete
    let resp = sm.apply(&make_delete_prev_value("/leader", "node1"), 3);
    assert_eq!(resp, Response::Done { version: 3 });
    assert!(sm.get("/leader").is_none());
}

// CAS: prev_version

#[test]
fn test_cas_prev_version_succeeds() {
    let mut sm = KvStateMachine::new();
    sm.apply(&make_set("/key", "v1"), 5);
    let req = Request::SetKey {
        key: "/key".to_string(),
        value: "v2".to_string(),
        ttl: None,
        prev_exist: None,
        prev_value: None,
        prev_version: Some(5), // matches version set at log_index=5
        now: TEST_NOW,
    };
    let resp = sm.apply(&req, 6);
    assert_eq!(resp, Response::Done { version: 6 });
}

#[test]
fn test_cas_prev_version_fails() {
    let mut sm = KvStateMachine::new();
    sm.apply(&make_set("/key", "v1"), 5);
    let req = Request::SetKey {
        key: "/key".to_string(),
        value: "v2".to_string(),
        ttl: None,
        prev_exist: None,
        prev_value: None,
        prev_version: Some(99), // wrong version
        now: TEST_NOW,
    };
    let resp = sm.apply(&req, 6);
    assert_eq!(resp, Response::NotChanged);
}

// TTL and expiry

#[test]
fn test_ttl_sets_expire_at() {
    let mut sm = KvStateMachine::new();
    // Use a future timestamp so the entry won't appear expired via get()
    let future_now = current_millis() + 1_000_000;
    let req = Request::SetKey {
        key: "/leader".to_string(),
        value: "node1".to_string(),
        ttl: Some(30),
        prev_exist: None,
        prev_value: None,
        prev_version: None,
        now: future_now,
    };
    sm.apply(&req, 1);
    let entry = sm.get("/leader").unwrap();
    assert!(entry.expire_at.is_some());
    // expire_at should be exactly future_now + 30 * 1000
    let expire = entry.expire_at.unwrap();
    assert_eq!(expire, future_now + 30_000);
}

#[test]
fn test_expire_keys_removes_expired() {
    let mut sm = KvStateMachine::new();
    // Insert key that expires immediately
    sm.apply(&make_set_with_ttl("/short", "val", 0), 1);
    // Insert key that won't expire
    sm.apply(&make_set("/permanent", "val"), 2);

    // Manually set expire_at to the past for testing
    let mut short = sm.data.get("/short").unwrap().clone();
    short.expire_at = Some(1); // epoch + 1ms = definitely past
    sm.data.insert("/short".to_string(), short);

    let far_future = current_millis() + 100_000;
    sm.apply(&Request::ExpireKeys { now: far_future }, 3);

    assert!(sm.data.get("/short").is_none());
    assert!(sm.data.get("/permanent").is_some());
}

#[test]
fn test_get_respects_ttl() {
    let mut sm = KvStateMachine::new();
    sm.apply(&make_set_with_ttl("/key", "val", 30), 1);

    // Manually expire it
    let mut entry = sm.data.get("/key").unwrap().clone();
    entry.expire_at = Some(1); // in the past
    sm.data.insert("/key".to_string(), entry);

    // get() should treat it as absent
    assert!(sm.get("/key").is_none());
}

// Prefix queries

#[test]
fn test_get_prefix() {
    let mut sm = KvStateMachine::new();
    sm.apply(&make_set("/service/cluster/members/a", "a"), 1);
    sm.apply(&make_set("/service/cluster/members/b", "b"), 2);
    sm.apply(&make_set("/service/cluster/leader", "a"), 3);

    let results = sm.get_prefix("/service/cluster/members/");
    assert_eq!(results.len(), 2);
    assert!(results.contains_key("/service/cluster/members/a"));
    assert!(results.contains_key("/service/cluster/members/b"));
}

// Leader lock lifecycle (integration-style)

#[test]
fn test_leader_lock_lifecycle() {
    let mut sm = KvStateMachine::new();

    // Acquire: prev_exist=false (key must not exist)
    let acquire = make_set_prev_exist("/leader", "node1", false);
    assert_eq!(sm.apply(&acquire, 1), Response::Done { version: 1 });

    // Another node tries to acquire — fails
    let acquire2 = make_set_prev_exist("/leader", "node2", false);
    assert_eq!(sm.apply(&acquire2, 2), Response::NotChanged);

    // Leader renews: prev_value=node1
    let renew = make_set_prev_value("/leader", "node1", "node1");
    assert_eq!(sm.apply(&renew, 3), Response::Done { version: 3 });

    // Wrong node tries to renew — fails
    let bad_renew = make_set_prev_value("/leader", "node2", "node2");
    assert_eq!(sm.apply(&bad_renew, 4), Response::NotChanged);

    // Leader releases: delete with prev_value=node1
    let release = make_delete_prev_value("/leader", "node1");
    assert_eq!(sm.apply(&release, 5), Response::Done { version: 5 });

    // Now node2 can acquire
    let acquire3 = make_set_prev_exist("/leader", "node2", false);
    assert_eq!(sm.apply(&acquire3, 6), Response::Done { version: 6 });
}

#[test]
fn test_created_at_preserved_on_update() {
    let mut sm = KvStateMachine::new();
    sm.apply(&make_set("/key", "v1"), 1);
    let created = sm.get("/key").unwrap().created_at;

    let mut later = make_set("/key", "v2");
    if let Request::SetKey { now, .. } = &mut later {
        *now = TEST_NOW + 2;
    }
    sm.apply(&later, 2);
    let entry = sm.get("/key").unwrap();
    assert_eq!(entry.created_at, created); // preserved
    assert!(entry.updated_at >= created); // updated
}

#[test]
fn test_write_without_time_uses_the_given_clock() {
    let mut sm = KvStateMachine::new();
    let mut req = make_set_with_ttl("/key", "v", 2);
    if let Request::SetKey { now, .. } = &mut req {
        *now = 0;
    }
    assert_eq!(sm.apply_at(&req, 4, 5_000), Response::Done { version: 4 });
    let entry = sm.get_at("/key", 5_000).unwrap();
    assert_eq!(entry.created_at, 5_000);
    assert_eq!(entry.expire_at, Some(7_000));
    assert_eq!(sm.last_applied_log(), 4);
}

#[test]
fn test_entry_is_visible_until_it_expires() {
    let mut sm = KvStateMachine::new();
    sm.apply(&make_set_with_ttl("/leader", "node1", 30), 1);
    assert!(sm.get_at("/leader", TEST_NOW + 29_999).is_some());
    assert!(sm.get_at("/leader", TEST_NOW + 30_000).is_none());
    assert_eq!(sm.len(), 1);
    assert!(!sm.is_empty());
}

#[test]
fn test_expired_lock_can_be_taken() {
    let mut sm = KvStateMachine::default();
    sm.apply(&make_set_with_ttl("/leader", "node1", 30), 1);
    let mut take = make_set_prev_exist("/leader", "node2", false);
    if let Request::SetKey { now, .. } = &mut take {
        *now = TEST_NOW + 29_999;
    }
    assert_eq!(sm.apply(&take, 2), Response::NotChanged);
    if let Request::SetKey { now, .. } = &mut take {
        *now = TEST_NOW + 30_000;
    }
    assert_eq!(sm.apply(&take, 3), Response::Done { version: 3 });
    assert_eq!(sm.get_at("/leader", TEST_NOW + 30_000).unwrap().value, "node2");
}

#[test]
fn test_same_requests_give_same_store() {
    let requests = vec![
        make_set("/a", "1"),
        make_set_with_ttl("/b", "2", 5),
        make_delete("/a"),
        Request::ExpireKeys { now: TEST_NOW + 10_000 },
        make_set_prev_value("/b", "3", "2"),
    ];
    let mut first = KvStateMachine::new();
    let mut second = KvStateMachine::new();
    let mut i = 0;
    for r in &requests {
        i += 1;
        assert_eq!(first.apply(r, i), second.apply(r, i));
    }
    assert_eq!(first.len(), second.len());
    assert!(first.is_empty());
}

#[test]
fn test_delete_recursive_of_nothing() {
    let mut sm = KvStateMachine::new();
    sm.apply(&make_set("/leader", "x"), 1);
    assert_eq!(sm.apply(&make_delete_recursive("/members/"), 2), Response::Done { version: 2 });
    assert_eq!(sm.len(), 1);
}

#[test]
fn test_expiry_must_be_in_range() {
    assert!(make_set_with_ttl("/a", "1", 30).expiry_in_range());
    assert!(!make_set_with_ttl("/a", "1", u64::MAX).expiry_in_range());
    assert!(make_set("/a", "1").expiry_in_range());
    assert!(make_delete("/a").expiry_in_range());
}

//! Replication slots.

use pg_ha::slots::{slot_name_from_lower, SlotManager};

const SECOND: u128 = 1_000_000_000;

#[test]
fn test_slot_name_basic() {
    assert_eq!(SlotManager::slot_name_from_member("node1"), "node1");
    assert_eq!(SlotManager::slot_name_from_member("node-1"), "node_1");
    assert_eq!(SlotManager::slot_name_from_member("my.node"), "my_node");
    assert_eq!(
        SlotManager::slot_name_from_member("Node-1.example"),
        "node_1_example"
    );
}

#[test]
fn test_slot_name_truncation() {
    let long_name = "a".repeat(100);
    let slot = SlotManager::slot_name_from_member(&long_name);
    assert_eq!(slot.len(), 63);
}

#[test]
fn test_slot_name_special_chars() {
    assert_eq!(
        SlotManager::slot_name_from_member("node@host:5432"),
        "node_host_5432"
    );
}

#[test]
fn test_compute_diff_create() {
    let mut mgr = SlotManager::new(300);
    let members = vec!["node1".into(), "node2".into(), "node3".into()];
    let existing: Vec<String> = vec![];
    let (create, drop) = mgr.compute_slot_diff(&members, &existing, "node1");
    assert_eq!(create.len(), 2); // node2, node3 (not self)
    assert!(create.contains(&"node2".to_string()));
    assert!(create.contains(&"node3".to_string()));
    assert!(drop.is_empty());
}

#[test]
fn test_compute_diff_drop_after_ttl() {
    let mut mgr = SlotManager::new(0); // 0s TTL = immediate drop
    let members = vec!["node1".into()]; // only self
    let existing = vec!["node2".to_string()]; // orphaned slot
    let (create, drop) = mgr.compute_slot_diff(&members, &existing, "node1");
    assert!(create.is_empty());
    assert_eq!(drop, vec!["node2"]);
}

#[test]
fn test_compute_diff_retain_before_ttl() {
    let mut mgr = SlotManager::new(300); // 5 min TTL
    let members = vec!["node1".into()];
    let existing = vec!["node2".to_string()];
    let (create, drop) = mgr.compute_slot_diff(&members, &existing, "node1");
    assert!(create.is_empty());
    assert!(drop.is_empty()); // retained, TTL not expired
}

#[test]
fn test_ignore_pattern() {
    let mut mgr = SlotManager::new(0);
    mgr.set_ignore_patterns(vec!["pg_*".into(), "*_logical".into()]);
    let members = vec!["node1".into()];
    let existing = vec![
        "pg_basebackup_12345".into(),
        "my_logical".into(),
        "orphan_slot".into(),
    ];
    let (_, drop) = mgr.compute_slot_diff(&members, &existing, "node1");
    // Only orphan_slot should be dropped; pg_* and *_logical are ignored
    assert_eq!(drop, vec!["orphan_slot"]);
}

#[test]
fn test_no_self_slot() {
    let mut mgr = SlotManager::new(300);
    let members = vec!["node1".into(), "node2".into()];
    let existing: Vec<String> = vec![];
    let (create, _) = mgr.compute_slot_diff(&members, &existing, "node1");
    // Should not create a slot for self
    assert!(!create.contains(&"node1".to_string()));
    assert!(create.contains(&"node2".to_string()));
}

#[test]
fn test_slot_name_of_other_letters() {
    // Capital letters outside of ASCII have small ones too, which slots cannot hold.
    assert_eq!(SlotManager::slot_name_from_member("N\u{00C4}HE"), "n_he");
    assert_eq!(SlotManager::slot_name_from_member("\u{212A}1"), "k1");
    assert_eq!(slot_name_from_lower("UPPER"), "_____");
}

#[test]
fn test_slot_is_kept_for_the_whole_time() {
    let mut mgr = SlotManager::new(10);
    let members = vec!["node1".to_string()];
    let existing = vec!["node2".to_string()];
    let (_, drop) = mgr.compute_slot_diff_at(&members, &existing, "node1", 5 * SECOND);
    assert!(drop.is_empty());
    assert_eq!(mgr.retained.get("node2"), Some(&(5 * SECOND)));
    let (_, drop) = mgr.compute_slot_diff_at(&members, &existing, "node1", 15 * SECOND - 1);
    assert!(drop.is_empty());
    let (_, drop) = mgr.compute_slot_diff_at(&members, &existing, "node1", 15 * SECOND);
    assert_eq!(drop, vec!["node2"]);
    assert!(mgr.retained.is_empty());
}

#[test]
fn test_member_that_returns_keeps_its_slot() {
    let mut mgr = SlotManager::new(10);
    let alone = vec!["node1".to_string()];
    let both = vec!["node1".to_string(), "Node-2".to_string()];
    let existing = vec!["node_2".to_string()];
    mgr.compute_slot_diff_at(&alone, &existing, "node1", 0);
    assert!(mgr.retained.contains_key("node_2"));
    let (create, drop) = mgr.compute_slot_diff_at(&both, &existing, "node1", 60 * SECOND);
    assert!(create.is_empty() && drop.is_empty());
    assert!(mgr.retained.is_empty());
}

#[test]
fn test_patterns_with_a_star_inside() {
    let mut mgr = SlotManager::new(0);
    mgr.set_ignore_patterns(vec!["a*b".into(), "same".into()]);
    let existing = vec!["axb".into(), "a*b".into(), "same".into(), "same2".into()];
    let (_, drop) = mgr.compute_slot_diff(&["me".into()], &existing, "me");
    assert_eq!(drop, vec!["axb", "same2"]);
}

//! The history of the cluster.

use pg_ha::history::{History, HistoryEntry, HistoryEventType, MAX_HISTORY_ENTRIES};

#[test]
fn test_record_event() {
    let mut history = History::new();
    history.record_event(
        HistoryEventType::Failover,
        Some("node1".into()),
        Some("node2".into()),
        "leader lock expired".into(),
    );

    assert_eq!(history.entries().len(), 1);
    assert_eq!(history.entries()[0].event_type, HistoryEventType::Failover);
    assert_eq!(history.entries()[0].old_leader.as_deref(), Some("node1"));
    assert_eq!(history.entries()[0].new_leader.as_deref(), Some("node2"));
}

#[test]
fn test_bounded_capacity() {
    let mut history = History::new();
    for i in 0..150 {
        history.record_event(
            HistoryEventType::Promote,
            None,
            Some(format!("node{i}")),
            format!("test event {i}"),
        );
    }

    assert_eq!(history.entries().len(), MAX_HISTORY_ENTRIES);
    // Oldest entries should have been evicted; first entry should be #50
    assert_eq!(
        history.entries()[0].new_leader.as_deref(),
        Some("node50")
    );
}

#[test]
fn test_restored_history_is_bounded() {
    let event = |i: u64| HistoryEntry {
        timestamp: i,
        event_type: HistoryEventType::Promote,
        old_leader: None,
        new_leader: Some(format!("node{i}")),
        reason: "why".to_string(),
    };
    let restored = History::restored((0..150).map(event).collect());
    assert_eq!(restored.entries().len(), MAX_HISTORY_ENTRIES);
    assert_eq!(restored.entries()[0].timestamp, 50);
    assert_eq!(restored.entries()[99].new_leader.as_deref(), Some("node149"));
    let few = History::restored(vec![event(7)]);
    assert_eq!(few.entries().len(), 1);
    assert_eq!(few.clone().entries()[0].timestamp, 7);
}

#[test]
fn test_event_names() {
    assert_eq!(HistoryEventType::Failover.as_str(), "failover");
    assert_eq!(HistoryEventType::Switchover.as_str(), "switchover");
    assert_eq!(HistoryEventType::Promote.as_str(), "promote");
}

#[test]
fn test_event_keeps_its_time() {
    let mut history = History::default();
    history.record_event_at(42, HistoryEventType::Promote, None, None, "why".into());
    assert_eq!(history.entries()[0].timestamp, 42);
    assert_eq!(history.entries()[0].reason, "why");
    history.record_event(HistoryEventType::Promote, None, None, "now".into());
    assert!(history.entries()[1].timestamp > 1_600_000_000);
}

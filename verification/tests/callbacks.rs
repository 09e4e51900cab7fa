//! Commands for events.

use pg_ha::callbacks::{CallbackEvent, CallbackExecutor, CallbacksConfig};

#[test]
fn test_event_as_str() {
    assert_eq!(CallbackEvent::OnStart.as_str(), "on_start");
    assert_eq!(CallbackEvent::OnRoleChange.as_str(), "on_role_change");
}

#[test]
fn test_no_callback_configured() {
    let executor = CallbackExecutor::new(CallbacksConfig::default(), "test".into());
    // Should not panic when no callback is configured
    assert!(executor.fire(CallbackEvent::OnStart, "start", "primary").is_none());
}

#[test]
fn test_callback_is_told_what_happened() {
    let config = CallbacksConfig {
        on_stop: Some("notify".into()),
        ..Default::default()
    };
    let executor = CallbackExecutor::new(config, "test-scope".into());
    assert!(executor.fire(CallbackEvent::OnRestart, "restart", "replica").is_none());
    let run = executor.fire(CallbackEvent::OnStop, "stop", "replica").unwrap();
    assert_eq!(run.command, "notify");
    assert_eq!(run.action, "stop");
    assert_eq!(run.role, "replica");
    assert_eq!(run.scope, "test-scope");
    assert_eq!(run.event, "on_stop");
    assert_eq!(run.timeout, 30);
}

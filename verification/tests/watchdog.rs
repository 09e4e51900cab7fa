//! The watchdog.

use pg_ha::config::{WatchdogConfig, WatchdogMode};
use pg_ha::watchdog::{Watchdog, DISARM_BYTE, KEEPALIVE_BYTE};

fn config(mode: WatchdogMode) -> WatchdogConfig {
    WatchdogConfig {
        mode,
        device: "/dev/watchdog".to_string(),
        safety_margin: 5,
    }
}

#[test]
fn test_watchdog_off_mode() {
    let mut wd = Watchdog::new(config(WatchdogMode::Off));
    assert!(!wd.wants_device());
    assert!(wd.activate(false)); // always succeeds when off
    assert!(!wd.is_active());
    assert!(!wd.is_required());
}

#[test]
fn test_watchdog_automatic_on_non_linux() {
    let mut wd = Watchdog::new(config(WatchdogMode::Automatic));
    // Without a device, activate succeeds but is_active is false
    assert!(wd.activate(false));
    assert!(!wd.is_active());
}

#[test]
fn test_watchdog_required_on_non_linux() {
    let mut wd = Watchdog::new(config(WatchdogMode::Required));
    // Without a device, required mode fails
    assert!(!wd.activate(false));
    assert!(wd.is_required());
}

#[test]
fn test_keepalive_noop_when_inactive() {
    let wd = Watchdog::new(config(WatchdogMode::Off));
    assert_eq!(wd.keepalive(), None); // Should not panic
}

#[test]
fn test_disarm_noop_when_inactive() {
    let mut wd = Watchdog::new(config(WatchdogMode::Off));
    assert_eq!(wd.disarm(), None); // Should not panic
}

#[test]
fn test_open_device_is_kept_quiet_and_disarmed() {
    let mut wd = Watchdog::new(config(WatchdogMode::Required));
    assert!(wd.activate(true));
    assert!(wd.is_active());
    assert_eq!(wd.keepalive(), Some(KEEPALIVE_BYTE));
    assert_eq!(KEEPALIVE_BYTE, b'1');
    assert_eq!(wd.disarm(), Some(DISARM_BYTE));
    assert_eq!(DISARM_BYTE, b'V');
    assert!(!wd.is_active());
    assert_eq!(wd.safety_margin(), 5);
}

#[test]
fn test_watchdog_fires_before_the_lock_expires() {
    let wd = Watchdog::new(config(WatchdogMode::Automatic));
    assert_eq!(wd.timeout(30), 25);
    assert_eq!(wd.timeout(5), 0);
    assert_eq!(wd.timeout(3), 0);
}

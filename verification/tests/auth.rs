//! Who may send requests.

use base64::Engine;
use pg_ha::auth::{check_credentials, AuthConfig};

fn guarded() -> AuthConfig {
    AuthConfig {
        username: Some("admin".to_string()),
        password: Some("s3:cret".to_string()),
    }
}

fn encode(s: &str) -> String {
    base64::engine::general_purpose::STANDARD.encode(s)
}

#[test]
fn test_open_without_credentials() {
    let open = AuthConfig { username: Some("admin".to_string()), password: None };
    assert!(!open.is_enabled());
    assert!(open.authorize(None));
    assert!(guarded().is_enabled());
    assert!(!guarded().authorize(None));
}

#[test]
fn test_basic_header() {
    let auth = guarded();
    assert!(auth.authorize(Some(&format!("Basic {}", encode("admin:s3:cret")))));
    assert!(auth.authorize(Some(&format!("Basic  {} ", encode("admin:s3:cret")))));
    assert!(!auth.authorize(Some(&format!("Basic {}", encode("admin:other")))));
    assert!(!auth.authorize(Some(&format!("Basic {}", encode("admin")))));
    // The text itself, not encoded, does not pass.
    assert!(!auth.authorize(Some("Basic admin:s3:cret")));
    // Bytes that are no text do not pass.
    assert!(!auth.authorize(Some("Basic /w==")));
}

#[test]
fn test_bearer_header() {
    let auth = guarded();
    assert!(auth.authorize(Some(&format!("Bearer {}", encode("admin:s3:cret")))));
    assert!(!auth.authorize(Some("Bearer admin:s3:cret")));
    assert!(!auth.authorize(Some(&format!("bearer {}", encode("admin:s3:cret")))));
    assert!(!auth.authorize(Some("")));
}

#[test]
fn test_password_may_hold_a_colon() {
    assert!(check_credentials("admin:s3:cret", "admin", "s3:cret"));
    assert!(!check_credentials("admin:s3:cret", "admin:s3", "cret"));
    assert!(!check_credentials("admin", "admin", ""));
    assert!(check_credentials(":", "", ""));
}

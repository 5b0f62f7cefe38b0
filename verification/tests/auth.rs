use beach::auth::error::AuthError;
use beach::auth::manager_requires_access_token;
use beach::auth::passphrase::{normalize_passphrase, require_passphrase};
use beach::auth::is_truthy;

#[test]
fn detects_private_hosts() {
    assert!(manager_requires_access_token(None, "https://private.example.com"));
    assert!(manager_requires_access_token(None, "https://pb-manager.test"));
    assert!(!manager_requires_access_token(None, "https://api.beach.sh"));
}

#[test]
fn env_override_forces_auth() {
    assert!(manager_requires_access_token(Some("true".to_string()), "https://api.beach.sh"));
}

#[test]
fn false_override_does_not_force_auth() {
    assert!(!manager_requires_access_token(Some("no".to_string()), "https://api.beach.sh"));
    assert!(manager_requires_access_token(Some("0".to_string()), "https://x.private.example.com"));
}

#[test]
fn unparsable_url_needs_no_token() {
    assert!(!manager_requires_access_token(None, "not a url"));
}

#[test]
fn host_match_ignores_case() {
    assert!(manager_requires_access_token(None, "https://Beach-Manager.Example.com"));
}

#[test]
fn truthy_values() {
    assert!(is_truthy(" TRUE "));
    assert!(is_truthy("1"));
    assert!(is_truthy("Yes"));
    assert!(is_truthy("on"));
    assert!(!is_truthy("off"));
    assert!(!is_truthy(""));
    assert!(!is_truthy("truthy"));
}

#[test]
fn passphrase_is_trimmed_and_blank_is_absent() {
    assert_eq!(normalize_passphrase(Some("  secret \n".to_string())), Some("secret".to_string()));
    assert_eq!(normalize_passphrase(Some("   ".to_string())), None);
    assert_eq!(normalize_passphrase(None), None);
}

#[test]
fn missing_passphrase_is_an_error() {
    assert!(matches!(require_passphrase(None), Err(AuthError::PassphraseMissing)));
    assert_eq!(require_passphrase(Some("pw".to_string())).ok(), Some("pw".to_string()));
}

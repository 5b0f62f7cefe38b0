use beach::auth::credentials::{
    access_token_is_valid_at, contains_entitlement, AccessTokenCache, CredentialsStore,
    RefreshTokenRecord, StoredProfile,
};
use beach::auth::config::AuthConfig;
use beach::auth::crypto::{decrypt, encrypt};
use beach::auth::error::AuthError;
use beach::auth::gate::{
    access_token_expired_at, device_finish_error, error_reason, normalize_turn_urls,
    refresh_tokens_error, turn_credentials_error, ErrorBody, TokenResponse, TurnCredentialsResponse,
    TurnIceServer,
};
use beach::auth::{
    active_profile_name, cached_access_token_at, ensure_profile_exists, fallback_profile_name, keyring_account,
    fallback_token_from_cache_at, persist_profile_update, profile_from_tokens, remove_profile,
    set_current_profile, status_for_profile, CachedToken,
};

const SECOND: i128 = 1_000_000_000;
const NOW: i128 = 1_700_000_000 * SECOND;

fn keyring(account: &str) -> RefreshTokenRecord {
    RefreshTokenRecord::Keyring {
        service: "beach-auth".to_string(),
        account: account.to_string(),
    }
}

fn profile(issuer: &str) -> StoredProfile {
    StoredProfile {
        issuer: issuer.to_string(),
        audience: None,
        tier: None,
        email: None,
        beach_profile: None,
        refresh: keyring("someone@example"),
        entitlements: Vec::new(),
        access_token: None,
        updated_at: NOW,
    }
}

fn cached(token: &str, expires_at: i128, entitlements: Vec<String>) -> AccessTokenCache {
    AccessTokenCache {
        token: token.to_string(),
        expires_at,
        entitlements,
    }
}

fn tokens() -> TokenResponse {
    TokenResponse {
        access_token: "access-1".to_string(),
        access_token_expires_in: 600,
        refresh_token: "refresh-1".to_string(),
        refresh_token_expires_in: 86_400,
        entitlements: vec!["rescue:fallback".to_string(), "turn".to_string()],
        tier: Some("pro".to_string()),
        profile: Some("beach-profile".to_string()),
        email: Some("a@example.com".to_string()),
    }
}

fn store_with(names: &[&str]) -> CredentialsStore {
    let mut store = CredentialsStore::new();
    for name in names {
        store.upsert_profile(name.to_string(), profile(name), false);
    }
    store
}

#[test]
fn first_upserted_profile_becomes_current() {
    let store = store_with(&["work", "home"]);
    assert_eq!(store.current_profile.as_deref(), Some("work"));
    assert!(ensure_profile_exists(&store, "home"));
    assert!(!ensure_profile_exists(&store, "other"));
}

#[test]
fn upsert_with_set_current_switches_and_replaces() {
    let mut store = store_with(&["work"]);
    store.upsert_profile("home".to_string(), profile("first"), true);
    store.upsert_profile("home".to_string(), profile("second"), false);
    assert_eq!(store.current_profile.as_deref(), Some("home"));
    assert_eq!(store.profile("home").unwrap().issuer, "second");
    assert_eq!(store.profile_names(), vec!["home".to_string(), "work".to_string()]);
}

#[test]
fn profile_names_are_sorted() {
    let store = store_with(&["zeta", "alpha", "Mid", "beta"]);
    assert_eq!(
        store.profile_names(),
        vec!["Mid".to_string(), "alpha".to_string(), "beta".to_string(), "zeta".to_string()]
    );
}

#[test]
fn removing_current_profile_picks_another() {
    let mut store = store_with(&["work", "home"]);
    let removed = remove_profile(&mut store, "work");
    assert_eq!(removed.unwrap().issuer, "work");
    assert_eq!(store.current_profile.as_deref(), Some("home"));
    assert!(remove_profile(&mut store, "work").is_none());
    assert!(remove_profile(&mut store, "home").is_some());
    assert_eq!(store.current_profile, None);
    assert!(store.profile_names().is_empty());
}

#[test]
fn removing_another_profile_keeps_current() {
    let mut store = store_with(&["work", "home"]);
    assert!(remove_profile(&mut store, "home").is_some());
    assert_eq!(store.current_profile.as_deref(), Some("work"));
}

#[test]
fn set_current_profile_refuses_unknown_names() {
    let mut store = store_with(&["work", "home"]);
    assert!(set_current_profile(&mut store, Some("home".to_string())).is_ok());
    assert_eq!(store.current_profile.as_deref(), Some("home"));
    match set_current_profile(&mut store, Some("nope".to_string())) {
        Err(AuthError::ProfileNotFound(name)) => assert_eq!(name, "nope"),
        other => panic!("unexpected {:?}", other),
    }
    assert_eq!(store.current_profile.as_deref(), Some("home"));
    assert!(set_current_profile(&mut store, None).is_ok());
    assert_eq!(store.current_profile, None);
}

#[test]
fn compact_repairs_a_dangling_current_profile() {
    let mut store = store_with(&["work"]);
    store.current_profile = Some("gone".to_string());
    store.compact();
    assert_eq!(store.current_profile.as_deref(), Some("work"));
}

#[test]
fn active_profile_prefers_override_then_setting_then_current() {
    let store = store_with(&["work", "home"]);
    assert_eq!(active_profile_name(&store, Some("home"), Some("work".to_string())).unwrap(), "home");
    assert_eq!(active_profile_name(&store, None, Some("  home \n".to_string())).unwrap(), "home");
    assert_eq!(active_profile_name(&store, None, Some("   ".to_string())).unwrap(), "work");
    assert_eq!(active_profile_name(&store, None, None).unwrap(), "work");
    match active_profile_name(&store, Some("nope"), None) {
        Err(AuthError::ProfileNotFound(name)) => assert_eq!(name, "nope"),
        other => panic!("unexpected {:?}", other),
    }
    match active_profile_name(&store, None, Some(" nope ".to_string())) {
        Err(AuthError::ProfileNotFound(name)) => assert_eq!(name, "nope"),
        other => panic!("unexpected {:?}", other),
    }
    let empty = CredentialsStore::new();
    assert!(matches!(active_profile_name(&empty, None, None), Err(AuthError::NotLoggedIn)));
}

#[test]
fn ensure_profile_environment_keeps_the_raw_setting() {
    let store = store_with(&["work"]);
    assert_eq!(store.ensure_profile_environment(Some("x"), None).as_deref(), Some("x"));
    assert_eq!(
        store.ensure_profile_environment(None, Some(" home ".to_string())).as_deref(),
        Some(" home ")
    );
    assert_eq!(store.ensure_profile_environment(None, Some(" ".to_string())).as_deref(), Some("work"));
}

#[test]
fn status_reports_named_or_current_profile() {
    let store = store_with(&["work"]);
    assert_eq!(status_for_profile(&store, None).unwrap().unwrap().issuer, "work");
    assert!(status_for_profile(&store, Some("home")).unwrap().is_none());
    let empty = CredentialsStore::new();
    assert!(matches!(status_for_profile(&empty, None), Err(AuthError::NotLoggedIn)));
}

#[test]
fn profile_from_tokens_caches_the_access_token() {
    let refresh = keyring("work@auth.example");
    let p = profile_from_tokens(&tokens(), "https://auth.example/".to_string(), Some("beach".to_string()), refresh, NOW);
    assert_eq!(p.issuer, "https://auth.example/");
    assert_eq!(p.audience.as_deref(), Some("beach"));
    assert_eq!(p.tier.as_deref(), Some("pro"));
    assert_eq!(p.email.as_deref(), Some("a@example.com"));
    assert_eq!(p.beach_profile.as_deref(), Some("beach-profile"));
    assert_eq!(p.updated_at, NOW);
    let cache = p.access_token.unwrap();
    assert_eq!(cache.token, "access-1");
    assert_eq!(cache.expires_at, NOW + 600 * SECOND);
    assert_eq!(cache.entitlements, vec!["rescue:fallback".to_string(), "turn".to_string()]);
    assert_eq!(p.entitlements, vec!["rescue:fallback".to_string(), "turn".to_string()]);
}

#[test]
fn persist_profile_update_stores_and_keeps_current() {
    let mut store = store_with(&["work"]);
    persist_profile_update(
        &mut store,
        "home",
        &tokens(),
        "https://auth.example/".to_string(),
        None,
        keyring("home@auth.example"),
        NOW,
    );
    assert_eq!(store.current_profile.as_deref(), Some("work"));
    assert_eq!(store.profile("home").unwrap().access_token.as_ref().unwrap().token, "access-1");

    let mut empty = CredentialsStore::new();
    persist_profile_update(&mut empty, "solo", &tokens(), "i".to_string(), None, keyring("solo@i"), NOW);
    assert_eq!(empty.current_profile.as_deref(), Some("solo"));
}

#[test]
fn cached_token_is_used_until_thirty_seconds_before_expiry() {
    let mut p = profile("work");
    p.access_token = Some(cached("tok", NOW + 31 * SECOND, Vec::new()));
    assert!(matches!(cached_access_token_at(&p, NOW, false), CachedToken::Use(t) if t == "tok"));
    p.access_token = Some(cached("tok", NOW + 30 * SECOND, Vec::new()));
    assert!(matches!(cached_access_token_at(&p, NOW, true), CachedToken::Refresh));
    assert!(matches!(cached_access_token_at(&p, NOW, false), CachedToken::NoToken));
    p.access_token = None;
    assert!(matches!(cached_access_token_at(&p, NOW, true), CachedToken::Refresh));
}

#[test]
fn validity_and_expiry_margins() {
    let entry = cached("t", NOW + 31 * SECOND, Vec::new());
    assert!(access_token_is_valid_at(&entry, NOW));
    assert!(!access_token_is_valid_at(&entry, NOW + SECOND));
    assert!(!access_token_expired_at(NOW + 16 * SECOND, NOW));
    assert!(access_token_expired_at(NOW + 15 * SECOND, NOW));
}

#[test]
fn fallback_token_needs_the_entitlement() {
    let mut p = profile("work");
    p.access_token = Some(cached("tok", NOW + 3600 * SECOND, Vec::new()));
    assert!(matches!(fallback_token_from_cache_at(&p, NOW), Err(AuthError::FallbackNotEntitled)));

    p.entitlements = vec!["rescue:fallback".to_string()];
    assert!(p.has_fallback_entitlement());
    assert_eq!(fallback_token_from_cache_at(&p, NOW).unwrap().as_deref(), Some("tok"));

    // Between 15 and 30 seconds left: still handed out.
    p.access_token = Some(cached("late", NOW + 20 * SECOND, Vec::new()));
    assert_eq!(fallback_token_from_cache_at(&p, NOW).unwrap().as_deref(), Some("late"));

    // Nearly expired: refresh instead.
    p.access_token = Some(cached("old", NOW + 10 * SECOND, Vec::new()));
    assert_eq!(fallback_token_from_cache_at(&p, NOW).unwrap(), None);

    p.access_token = None;
    assert_eq!(fallback_token_from_cache_at(&p, NOW).unwrap(), None);
}

#[test]
fn clearing_the_access_token_updates_the_profile() {
    let mut p = profile("work");
    p.cache_access_token_at("t".to_string(), 60, Vec::new(), NOW);
    assert!(p.access_token.is_some());
    p.clear_access_token_at(NOW + SECOND);
    assert!(p.access_token.is_none());
    assert_eq!(p.updated_at, NOW + SECOND);
}

#[test]
fn entitlement_lookup_is_exact() {
    let ents = vec!["turn".to_string(), "rescue:fallback".to_string()];
    assert!(contains_entitlement(&ents, "rescue:fallback"));
    assert!(!contains_entitlement(&ents, "rescue"));
    assert!(!contains_entitlement(&Vec::new(), "turn"));
}

#[test]
fn encrypted_text_comes_back_with_the_right_passphrase() {
    let blob = encrypt("correct horse", "refresh-token-value").unwrap();
    assert_eq!(decrypt("correct horse", &blob).unwrap(), "refresh-token-value");
    assert!(matches!(decrypt("wrong horse", &blob), Err(AuthError::Encryption(_))));
}

#[test]
fn two_encryptions_differ_but_both_open() {
    let a = encrypt("pw", "same").unwrap();
    let b = encrypt("pw", "same").unwrap();
    assert_ne!(a.salt, b.salt);
    assert_eq!(decrypt("pw", &a).unwrap(), "same");
    assert_eq!(decrypt("pw", &b).unwrap(), "same");
}

#[test]
fn corrupt_blob_is_an_encryption_error() {
    let mut blob = encrypt("pw", "text").unwrap();
    blob.nonce = "not base64!".to_string();
    assert!(matches!(decrypt("pw", &blob), Err(AuthError::Encryption(_))));
}

fn urls_of(value: &serde_json::Value) -> Vec<String> {
    match value {
        serde_json::Value::String(s) => vec![s.clone()],
        serde_json::Value::Array(items) => items
            .iter()
            .map(|v| v.as_str().unwrap().to_string())
            .collect(),
        _ => panic!("urls must be a string or a list"),
    }
}

fn opt_string(value: &serde_json::Value, key: &str) -> Option<String> {
    value.get(key).and_then(|v| v.as_str()).map(|s| s.to_string())
}

fn turn_credentials(json: &str) -> TurnCredentialsResponse {
    let value: serde_json::Value = serde_json::from_str(json).unwrap();
    let mut ice_servers = Vec::new();
    for server in value["iceServers"].as_array().unwrap() {
        ice_servers.push(TurnIceServer {
            urls: normalize_turn_urls(urls_of(&server["urls"])).unwrap(),
            username: opt_string(server, "username"),
            credential: opt_string(server, "credential"),
            credential_type: opt_string(server, "credentialType"),
        });
    }
    TurnCredentialsResponse {
        realm: value["realm"].as_str().unwrap().to_string(),
        ttl_seconds: value["ttl_seconds"].as_u64().unwrap(),
        expires_at: value["expires_at"].as_i64(),
        ice_servers,
    }
}

#[test]
fn turn_credentials_accept_single_url() {
    let json = r#"{
        "realm": "turn.example",
        "ttl_seconds": 120,
        "expires_at": null,
        "iceServers": [
            {
                "urls": "turn:turn.example:3478",
                "username": "alice",
                "credential": "secret"
            }
        ]
    }"#;

    let creds = turn_credentials(json);
    assert_eq!(creds.ice_servers.len(), 1);
    assert_eq!(creds.ice_servers[0].urls, vec!["turn:turn.example:3478"]);
    assert_eq!(creds.ice_servers[0].username.as_deref(), Some("alice"));
    assert_eq!(creds.ice_servers[0].credential.as_deref(), Some("secret"));
}

#[test]
fn turn_credentials_accept_multiple_urls() {
    let json = r#"{
        "realm": "turn.example",
        "ttl_seconds": 120,
        "expires_at": null,
        "iceServers": [
            {
                "urls": ["turn:one.example:3478", "turn:two.example:3478"]
            }
        ]
    }"#;

    let creds = turn_credentials(json);
    assert_eq!(creds.ice_servers.len(), 1);
    assert_eq!(
        creds.ice_servers[0].urls,
        vec!["turn:one.example:3478", "turn:two.example:3478"]
    );
}

#[test]
fn blank_turn_urls_are_dropped_and_none_left_is_refused() {
    assert_eq!(
        normalize_turn_urls(vec![" ".to_string(), "turn:a".to_string(), String::new()]).unwrap(),
        vec!["turn:a".to_string()]
    );
    assert_eq!(
        normalize_turn_urls(vec!["  ".to_string()]).unwrap_err(),
        "TURN server urls missing"
    );
    assert!(normalize_turn_urls(Vec::new()).is_err());
}

fn body(error: Option<&str>, detail: Option<&str>) -> ErrorBody {
    ErrorBody {
        error: error.map(|s| s.to_string()),
        detail: detail.map(|s| s.to_string()),
    }
}

#[test]
fn error_reason_prefers_detail_then_error() {
    assert_eq!(error_reason(body(Some("e"), Some("d")), "x"), "d");
    assert_eq!(error_reason(body(Some("e"), None), "x"), "e");
    assert_eq!(error_reason(body(None, None), "x"), "x");
}

#[test]
fn device_finish_errors_are_classified() {
    assert!(matches!(
        device_finish_error(400, "400 Bad Request", body(None, Some("authorization_pending"))),
        AuthError::AuthorizationPending
    ));
    assert!(matches!(
        device_finish_error(502, "502 Bad Gateway", body(None, Some("please slow_down"))),
        AuthError::AuthorizationPending
    ));
    assert!(matches!(
        device_finish_error(400, "400 Bad Request", body(None, Some("access_denied"))),
        AuthError::AuthorizationDenied
    ));
    assert!(matches!(
        device_finish_error(401, "401 Unauthorized", body(None, None)),
        AuthError::AuthorizationDenied
    ));
    // A pending detail only counts on 400 and 502.
    match device_finish_error(500, "500 Internal Server Error", body(None, Some("authorization_pending"))) {
        AuthError::Gateway(m) => {
            assert_eq!(m, "device finish failed (500 Internal Server Error): authorization_pending")
        }
        other => panic!("unexpected {:?}", other),
    }
    match device_finish_error(400, "400 Bad Request", body(Some("bad"), None)) {
        AuthError::Gateway(m) => assert_eq!(m, "device finish failed (400 Bad Request): bad"),
        other => panic!("unexpected {:?}", other),
    }
}

#[test]
fn refresh_and_turn_errors_are_classified() {
    assert!(matches!(refresh_tokens_error(401, "401 Unauthorized", body(None, None)), AuthError::NotLoggedIn));
    match refresh_tokens_error(500, "500 Internal Server Error", body(None, None)) {
        AuthError::Gateway(m) => assert_eq!(m, "token refresh failed (500 Internal Server Error): unknown error"),
        other => panic!("unexpected {:?}", other),
    }
    assert!(matches!(turn_credentials_error(403, "403 Forbidden", body(None, None)), AuthError::TurnNotEntitled));
    assert!(matches!(turn_credentials_error(401, "401 Unauthorized", body(None, None)), AuthError::NotLoggedIn));
    match turn_credentials_error(503, "503 Service Unavailable", body(None, None)) {
        AuthError::Gateway(m) => assert_eq!(m, "turn credentials service unavailable"),
        other => panic!("unexpected {:?}", other),
    }
    match turn_credentials_error(404, "404 Not Found", body(Some("missing"), None)) {
        AuthError::Gateway(m) => assert_eq!(m, "turn credentials request failed (404 Not Found): missing"),
        other => panic!("unexpected {:?}", other),
    }
}

#[test]
fn fallback_profile_name_does_not_check_the_store() {
    let store = store_with(&["work"]);
    assert_eq!(fallback_profile_name(&store, Some("nope"), None).unwrap(), "nope");
    assert_eq!(fallback_profile_name(&store, None, Some(" other ".to_string())).unwrap(), "other");
    assert_eq!(fallback_profile_name(&store, None, Some("  ".to_string())).unwrap(), "work");
    assert!(matches!(
        fallback_profile_name(&CredentialsStore::new(), None, None),
        Err(AuthError::NotLoggedIn)
    ));
}

#[test]
fn revoked_entitlements_drop_the_cached_token() {
    let mut store = CredentialsStore::new();
    let mut p = profile("work");
    p.entitlements = vec!["rescue:fallback".to_string()];
    p.access_token = Some(cached("tok", NOW + 3600 * SECOND, Vec::new()));
    store.upsert_profile("work".to_string(), p, false);
    store.current_profile = None;
    store.record_entitlements_revoked("work", vec!["turn".to_string()], NOW + SECOND);
    let p = store.profile("work").unwrap();
    assert_eq!(p.entitlements, vec!["turn".to_string()]);
    assert!(p.access_token.is_none());
    assert_eq!(p.updated_at, NOW + SECOND);
    assert_eq!(store.current_profile, None);
    store.record_entitlements_revoked("absent", Vec::new(), NOW);
    assert_eq!(store.profile_names(), vec!["work".to_string()]);
}

#[test]
fn auth_config_from_settings() {
    let c = AuthConfig::from_settings(None, Some("  ".to_string()), Some("beach".to_string())).unwrap();
    assert_eq!(c.gateway, "https://auth.beach.sh/");
    assert_eq!(c.scope, None);
    assert_eq!(c.audience.as_deref(), Some("beach"));
    let c = AuthConfig::from_settings(Some("http://localhost:4000/auth".to_string()), Some(" s ".to_string()), None).unwrap();
    assert_eq!(c.gateway, "http://localhost:4000/auth");
    assert_eq!(c.scope.as_deref(), Some(" s "));
    match AuthConfig::from_settings(Some("not a url".to_string()), None, None) {
        Err(AuthError::Config(m)) => assert_eq!(m, "invalid BEACH_AUTH_GATEWAY: relative URL without a base"),
        other => panic!("unexpected {:?}", other),
    }
}

#[test]
fn keyring_accounts_name_profile_and_host() {
    assert_eq!(keyring_account("work", "https://auth.beach.sh/"), "work@auth.beach.sh");
    assert_eq!(keyring_account("work", "not a url"), "work@beach");
}

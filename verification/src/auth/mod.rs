//! Beach Auth: deciding when the session manager needs an access token,
//! the credentials passphrase and the errors of the auth flow.

use vstd::prelude::*;
use vstd::string::StringExecFns;

use credentials::{
    access_token_is_valid_at, contains_entitlement, expiry_after, has_entitlement, spec_fallback_entitlement,
    time_in_range, AccessTokenCache, CredentialsStore, RefreshTokenRecord, StoredProfile,
};
use error::AuthError;
use gate::{access_token_expired_at, TokenResponse};

use crate::text::{
    ascii_lower, contains, has_infix, occurs_at, spec_trim, starts_with, str_chars, str_to_ascii_lowercase,
    str_trim,
};

pub mod config;
pub mod credentials;
pub mod crypto;
pub mod error;
pub mod gate;
pub mod passphrase;

verus! {

/// Whether a setting reads as true: after trimming, `1`, `true`, `yes` or
/// `on` in any ASCII case.
pub open spec fn spec_is_truthy(value: Seq<char>) -> bool {
    let v = spec_trim(value).map_values(|c: char| ascii_lower(c));
    v == "1"@ || v == "true"@ || v == "yes"@ || v == "on"@
}

/// Whether a setting reads as true: after trimming, `1`, `true`, `yes` or
/// `on` in any ASCII case.
pub fn is_truthy(value: &str) -> (res: bool)
    ensures
        res == spec_is_truthy(value@),
{
    let trimmed = str_trim(value);
    let lower = str_to_ascii_lowercase(trimmed);
    let one = String::from_str("1");
    let t = String::from_str("true");
    let y = String::from_str("yes");
    let on = String::from_str("on");
    lower == one || lower == t || lower == y || lower == on
}

/// What `Url::parse` of the `url` crate followed by `Url::host_str` gives
/// for `s`: the host of the parsed URL, `None` when `s` does not parse or
/// the URL has no host.
pub uninterp spec fn spec_url_host(s: Seq<char>) -> Option<Seq<char>>;

/// `url::Url::parse(s)` and, when it succeeds, `Url::host_str` of the
/// result, as an owned string. The result is given the name
/// `spec_url_host`; nothing more is stated of it.
#[verifier::external_body]
fn url_host(s: &str) -> (res: Option<String>)
    ensures
        res is None <==> spec_url_host(s@) is None,
        res matches Some(h) ==> spec_url_host(s@) == Some(h@),
{
    match url::Url::parse(s) {
        Ok(url) => url.host_str().map(|h| h.to_string()),
        Err(_) => None,
    }
}

/// Whether a (lower-case) host names a private Beach manager.
pub open spec fn spec_private_host(host: Seq<char>) -> bool {
    occurs_at(host, "private."@, 0) || has_infix(host, ".private."@) || has_infix(host, "private-beach"@)
        || has_infix(host, "pb-manager"@) || has_infix(host, "beach-manager"@)
}

/// Whether the session manager at `base_url` needs an access token: when
/// the `BEACH_MANAGER_REQUIRE_AUTH` setting (`require_auth_setting`) reads
/// as true, or when the URL's host names a private manager.
pub fn manager_requires_access_token(require_auth_setting: Option<String>, base_url: &str) -> (res: bool)
    ensures
        res == ((require_auth_setting matches Some(v) && spec_is_truthy(v@)) || (spec_url_host(base_url@) matches Some(
            h,
        ) && spec_private_host(h.map_values(|c: char| ascii_lower(c))))),
{
    if let Some(value) = &require_auth_setting {
        if is_truthy(value.as_str()) {
            return true;
        }
    }
    if let Some(host) = url_host(base_url) {
        let lower = str_to_ascii_lowercase(host.as_str());
        let h = str_chars(lower.as_str());
        let p1 = str_chars("private.");
        let p2 = str_chars(".private.");
        let p3 = str_chars("private-beach");
        let p4 = str_chars("pb-manager");
        let p5 = str_chars("beach-manager");
        if starts_with(&h, &p1) || contains(&h, &p2) || contains(&h, &p3) || contains(&h, &p4) || contains(
            &h,
            &p5,
        ) {
            return true;
        }
    }
    false
}


/// The keyring account a refresh token of `profile` issued by `gateway` is
/// kept under: `profile@host`, with host `beach` when the gateway has none.
pub open spec fn spec_keyring_account(profile: Seq<char>, gateway: Seq<char>) -> Seq<char> {
    profile + "@"@ + match spec_url_host(gateway) {
        Some(h) => h,
        None => "beach"@,
    }
}

/// The keyring account a refresh token of `profile` issued by `gateway` is
/// kept under (see `spec_keyring_account`).
pub fn keyring_account(profile: &str, gateway: &str) -> (res: String)
    ensures
        res@ == spec_keyring_account(profile@, gateway@),
{
    let mut account = String::from_str(profile);
    account.append("@");
    match url_host(gateway) {
        Some(h) => account.append(h.as_str()),
        None => account.append("beach"),
    }
    account
}

/// Whether profile `profile_name` is stored.
pub fn ensure_profile_exists(store: &CredentialsStore, profile_name: &str) -> (res: bool)
    requires
        store.wf(),
    ensures
        res == store.profile_map().contains_key(profile_name@),
{
    store.profile(profile_name).is_some()
}

/// Removes profile `profile_name` from `store`; returns whether it was
/// stored (see `CredentialsStore::remove_profile`).
pub fn remove_profile(store: &mut CredentialsStore, profile_name: &str) -> (res: Option<StoredProfile>)
    requires
        old(store).wf(),
    ensures
        final(store).wf(),
        final(store).profile_map() == old(store).profile_map().remove(profile_name@),
        res is Some <==> old(store).profile_map().contains_key(profile_name@),
        old(store).current() != Some(profile_name@) ==> final(store).current() == old(store).current(),
        old(store).current() == Some(profile_name@) ==> match final(store).current() {
            Some(c) => final(store).profile_map().contains_key(c),
            None => final(store).profile_map().is_empty(),
        },
{
    store.remove_profile(profile_name)
}

/// Makes profile `profile_name` current in `store`, or none; an unknown
/// profile is refused with `ProfileNotFound`.
pub fn set_current_profile(store: &mut CredentialsStore, profile_name: Option<String>) -> (res: Result<(), AuthError>)
    requires
        old(store).wf(),
    ensures
        final(store).wf(),
        final(store).profile_map() == old(store).profile_map(),
        match profile_name {
            Some(n) => if old(store).profile_map().contains_key(n@) {
                res is Ok && final(store).current() == Some(n@)
            } else {
                res matches Err(AuthError::ProfileNotFound(m)) && m@ == n@ && final(store).current()
                    == old(store).current()
            },
            None => res is Ok && final(store).current() is None,
        },
{
    store.set_current_profile(profile_name)
}

/// The profile to act as: `profile_override` when given (refused with
/// `ProfileNotFound` when not stored); else the trimmed `BEACH_PROFILE`
/// setting (`env_profile`) when not blank (likewise); else the current
/// profile; else `NotLoggedIn`.
pub fn active_profile_name(store: &CredentialsStore, profile_override: Option<&str>, env_profile: Option<String>) -> (res:
    Result<String, AuthError>)
    requires
        store.wf(),
    ensures
        match profile_override {
            Some(o) => if store.profile_map().contains_key(o@) {
                res matches Ok(n) && n@ == o@
            } else {
                res matches Err(AuthError::ProfileNotFound(m)) && m@ == o@
            },
            None => match env_profile {
                Some(e) if spec_trim(e@).len() > 0 => if store.profile_map().contains_key(spec_trim(e@)) {
                    res matches Ok(n) && n@ == spec_trim(e@)
                } else {
                    res matches Err(AuthError::ProfileNotFound(m)) && m@ == spec_trim(e@)
                },
                _ => match store.current() {
                    Some(c) => res matches Ok(n) && n@ == c,
                    None => res matches Err(AuthError::NotLoggedIn),
                },
            },
        },
{
    if let Some(override_name) = profile_override {
        if store.profile(override_name).is_some() {
            return Ok(String::from_str(override_name));
        }
        return Err(AuthError::ProfileNotFound(String::from_str(override_name)));
    }
    if let Some(env) = &env_profile {
        let trimmed = str_trim(env.as_str());
        if !trimmed.is_empty() {
            if store.profile(trimmed).is_some() {
                return Ok(String::from_str(trimmed));
            }
            return Err(AuthError::ProfileNotFound(String::from_str(trimmed)));
        }
    }
    match &store.current_profile {
        Some(current) => Ok(current.clone()),
        None => Err(AuthError::NotLoggedIn),
    }
}

/// The profile the WebSocket fallback acts as: `profile_override` when
/// given; else the trimmed `BEACH_PROFILE` setting (`env_profile`) when not
/// blank; else the current profile; else `NotLoggedIn`. Unlike
/// `active_profile_name`, the name is not checked against the store.
pub fn fallback_profile_name(store: &CredentialsStore, profile_override: Option<&str>, env_profile: Option<String>) -> (res:
    Result<String, AuthError>)
    ensures
        match profile_override {
            Some(o) => res matches Ok(n) && n@ == o@,
            None => match env_profile {
                Some(e) if spec_trim(e@).len() > 0 => res matches Ok(n) && n@ == spec_trim(e@),
                _ => match store.current() {
                    Some(c) => res matches Ok(n) && n@ == c,
                    None => res matches Err(AuthError::NotLoggedIn),
                },
            },
        },
{
    if let Some(name) = profile_override {
        return Ok(String::from_str(name));
    }
    if let Some(env) = &env_profile {
        let trimmed = str_trim(env.as_str());
        if !trimmed.is_empty() {
            return Ok(String::from_str(trimmed));
        }
    }
    match &store.current_profile {
        Some(current) => Ok(current.clone()),
        None => Err(AuthError::NotLoggedIn),
    }
}

/// The stored profile `profile_name`, or the current one when none is
/// named (`NotLoggedIn` without a current profile); `None` when it is not
/// stored.
pub fn status_for_profile<'a>(store: &'a CredentialsStore, profile_name: Option<&str>) -> (res: Result<
    Option<&'a StoredProfile>,
    AuthError,
>)
    requires
        store.wf(),
    ensures
        ({
            let name = match profile_name {
                Some(n) => Some(n@),
                None => store.current(),
            };
            match name {
                Some(n) => res matches Ok(p) && (p is Some <==> store.profile_map().contains_key(n)) && (p matches Some(
                    q,
                ) ==> *q == store.profile_map()[n]),
                None => res matches Err(AuthError::NotLoggedIn),
            }
        }),
{
    match profile_name {
        Some(name) => Ok(store.profile(name)),
        None => match &store.current_profile {
            Some(current) => Ok(store.profile(current.as_str())),
            None => Err(AuthError::NotLoggedIn),
        },
    }
}

/// The profile stored after new tokens arrive: issued by `issuer` for
/// `audience`, with refresh token `refresh`, the tokens' entitlements, tier,
/// email and Beach profile, and the access token cached as issued at `now`.
pub fn profile_from_tokens(
    tokens: &TokenResponse,
    issuer: String,
    audience: Option<String>,
    refresh: RefreshTokenRecord,
    now: i128,
) -> (res: StoredProfile)
    requires
        time_in_range(now as int),
        time_in_range(expiry_after(now as int, tokens.access_token_expires_in)),
    ensures
        res.issuer@ == issuer@,
        res.audience == audience,
        res.refresh == refresh,
        res.entitlements@.map_values(|e: String| e@) == tokens.entitlements@.map_values(|e: String| e@),
        res.access_token matches Some(c) && c.token@ == tokens.access_token@ && c.expires_at == expiry_after(
            now as int,
            tokens.access_token_expires_in,
        ) && c.entitlements@.map_values(|e: String| e@) == tokens.entitlements@.map_values(|e: String| e@),
        res.updated_at == now,
{
    let entitlements = clone_strings(&tokens.entitlements);
    let mut profile = StoredProfile {
        issuer,
        audience,
        tier: clone_opt(&tokens.tier),
        email: clone_opt(&tokens.email),
        beach_profile: clone_opt(&tokens.profile),
        refresh,
        entitlements,
        access_token: None,
        updated_at: now,
    };
    let cached = clone_strings(&tokens.entitlements);
    profile.cache_access_token_at(tokens.access_token.clone(), tokens.access_token_expires_in, cached, now);
    profile
}

/// Stores the profile `profile_from_tokens` builds as `profile_name`,
/// leaving the current profile as it is unless none is current.
pub fn persist_profile_update(
    store: &mut CredentialsStore,
    profile_name: &str,
    tokens: &TokenResponse,
    issuer: String,
    audience: Option<String>,
    refresh: RefreshTokenRecord,
    now: i128,
)
    requires
        old(store).wf(),
        time_in_range(now as int),
        time_in_range(expiry_after(now as int, tokens.access_token_expires_in)),
    ensures
        final(store).wf(),
        final(store).profile_map().dom() == old(store).profile_map().dom().insert(profile_name@),
        forall|k: Seq<char>| k != profile_name@ && #[trigger] old(store).profile_map().contains_key(k) ==> final(store).profile_map()[k]
            == old(store).profile_map()[k],
        ({
            let p = final(store).profile_map()[profile_name@];
            &&& p.issuer@ == issuer@
            &&& p.audience == audience
            &&& p.refresh == refresh
            &&& p.updated_at == now
            &&& p.access_token matches Some(c) && c.token@ == tokens.access_token@
        }),
        final(store).current() == (if old(store).current() is None {
            Some(profile_name@)
        } else {
            old(store).current()
        }),
{
    let profile = profile_from_tokens(tokens, issuer, audience, refresh, now);
    store.upsert_profile(String::from_str(profile_name), profile, false);
    proof {
        assert(final(store).profile_map().dom() =~= old(store).profile_map().dom().insert(profile_name@));
    }
}

/// A copy of a list of strings.
fn clone_strings(v: &Vec<String>) -> (res: Vec<String>)
    ensures
        res@.map_values(|e: String| e@) == v@.map_values(|e: String| e@),
{
    let mut out: Vec<String> = Vec::with_capacity(v.len());
    let mut i: usize = 0;
    while i < v.len()
        invariant
            i <= v@.len(),
            out@.map_values(|e: String| e@) == v@.take(i as int).map_values(|e: String| e@),
        decreases v@.len() - i,
    {
        out.push(v[i].clone());
        proof {
            assert(v@.take(i + 1).map_values(|e: String| e@) =~= v@.take(i as int).map_values(|e: String| e@).push(
                v@[i as int]@,
            ));
            assert(out@.map_values(|e: String| e@) =~= v@.take(i + 1).map_values(|e: String| e@));
        }
        i = i + 1;
    }
    proof {
        assert(v@.take(v@.len() as int) =~= v@);
    }
    out
}

/// A copy of an optional string.
fn clone_opt(s: &Option<String>) -> (res: Option<String>)
    ensures
        crate::client::grid_renderer::opt_str(res) == crate::client::grid_renderer::opt_str(*s),
{
    match s {
        Some(t) => Some(t.clone()),
        None => None,
    }
}

/// What to do about an access token for a stored profile.
#[derive(Debug)]
pub enum CachedToken {
    /// Use this cached token.
    Use(String),
    /// Refresh the tokens.
    Refresh,
    /// Go without a token.
    NoToken,
}

/// Whether to use the cached access token of `profile` at `now`: when it is
/// still good; else refresh when `refresh_if_needed`, else go without.
pub fn cached_access_token_at(profile: &StoredProfile, now: i128, refresh_if_needed: bool) -> (res: CachedToken)
    requires
        time_in_range(now as int),
    ensures
        match profile.access_token {
            Some(c) if c.expires_at > now + 30_000_000_000 => res matches CachedToken::Use(t) && t@ == c.token@,
            _ => if refresh_if_needed {
                res is Refresh
            } else {
                res is NoToken
            },
        },
{
    if let Some(cache) = &profile.access_token {
        if access_token_is_valid_at(cache, now) {
            return CachedToken::Use(cache.token.clone());
        }
    }
    if refresh_if_needed {
        CachedToken::Refresh
    } else {
        CachedToken::NoToken
    }
}

/// The cached token that allows the WebSocket fallback for `profile` at
/// `now`: refused with `FallbackNotEntitled` when the profile lacks the
/// entitlement; the cached token when it is still good and carries the
/// entitlement, or has not expired; `None` when tokens must be refreshed.
pub fn fallback_token_from_cache_at(profile: &StoredProfile, now: i128) -> (res: Result<Option<String>, AuthError>)
    requires
        time_in_range(now as int),
    ensures
        !has_entitlement(profile.entitlements@, spec_fallback_entitlement()) ==> res matches Err(
            AuthError::FallbackNotEntitled,
        ),
        has_entitlement(profile.entitlements@, spec_fallback_entitlement()) ==> match profile.access_token {
            Some(c) => if (c.expires_at > now + 30_000_000_000 && has_entitlement(
                c.entitlements@,
                spec_fallback_entitlement(),
            )) || c.expires_at > now + 15_000_000_000 {
                res matches Ok(Some(t)) && t@ == c.token@
            } else {
                res matches Ok(None)
            },
            None => res matches Ok(None),
        },
{
    if !profile.has_fallback_entitlement() {
        return Err(AuthError::FallbackNotEntitled);
    }
    if let Some(cache) = &profile.access_token {
        if access_token_is_valid_at(cache, now) && contains_entitlement(&cache.entitlements, "rescue:fallback") {
            return Ok(Some(cache.token.clone()));
        }
        if !access_token_expired_at(cache.expires_at, now) {
            return Ok(Some(cache.token.clone()));
        }
    }
    Ok(None)
}

} // verus!

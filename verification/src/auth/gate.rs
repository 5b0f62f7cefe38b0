//! What the Beach Auth gateway answers: device-flow starts, tokens and TURN
//! credentials, and when a token counts as expired.

use vstd::prelude::*;
use vstd::string::StringExecFns;

use super::credentials::{now_unix_nanos, time_in_range, time_min_nanos};
use super::error::AuthError;
use crate::text::{contains, has_infix, str_chars};

verus! {

/// The start of a device login.
#[derive(Debug, Clone)]
pub struct DeviceStartResponse {
    pub device_code: String,
    pub user_code: String,
    pub verification_uri: String,
    pub verification_uri_complete: String,
    pub expires_in: u64,
    pub interval: u64,
}

/// Tokens issued to a profile.
#[derive(Debug, Clone)]
pub struct TokenResponse {
    pub access_token: String,
    pub access_token_expires_in: u64,
    pub refresh_token: String,
    pub refresh_token_expires_in: u64,
    pub entitlements: Vec<String>,
    pub tier: Option<String>,
    pub profile: Option<String>,
    pub email: Option<String>,
}

/// TURN relay credentials.
#[derive(Debug, Clone)]
pub struct TurnCredentialsResponse {
    pub realm: String,
    pub ttl_seconds: u64,
    pub expires_at: Option<i64>,
    pub ice_servers: Vec<TurnIceServer>,
}

/// One ICE server of TURN credentials.
#[derive(Debug, Clone)]
pub struct TurnIceServer {
    pub urls: Vec<String>,
    pub username: Option<String>,
    pub credential: Option<String>,
    pub credential_type: Option<String>,
}

/// The URLs of an ICE server that are not blank, in order.
pub open spec fn nonblank_urls(urls: Seq<String>) -> Seq<Seq<char>>
    decreases urls.len(),
{
    if urls.len() == 0 {
        Seq::empty()
    } else {
        let rest = nonblank_urls(urls.drop_last());
        if crate::text::spec_trim(urls.last()@).len() == 0 {
            rest
        } else {
            rest.push(urls.last()@)
        }
    }
}

/// The `urls` field of an ICE server, given as one URL or a list: the URLs
/// that are not blank, in order; refused when none is left.
pub fn normalize_turn_urls(urls: Vec<String>) -> (res: Result<Vec<String>, String>)
    ensures
        nonblank_urls(urls@).len() == 0 ==> (res matches Err(msg) && msg@ == "TURN server urls missing"@),
        nonblank_urls(urls@).len() > 0 ==> (res matches Ok(v) && v@.map_values(|s: String| s@) == nonblank_urls(urls@)),
{
    let n = urls.len();
    let mut kept: Vec<String> = Vec::new();
    let mut i: usize = 0;
    proof {
        assert(urls@.take(0) =~= Seq::<String>::empty());
        assert(kept@.map_values(|s: String| s@) =~= Seq::<Seq<char>>::empty());
    }
    while i < n
        invariant
            n == urls@.len(),
            i <= n,
            kept@.map_values(|s: String| s@) == nonblank_urls(urls@.take(i as int)),
        decreases n - i,
    {
        let blank = crate::text::str_trim(urls[i].as_str()).is_empty();
        let ghost before = kept@;
        if !blank {
            kept.push(urls[i].clone());
        }
        proof {
            assert(urls@.take(i + 1).drop_last() =~= urls@.take(i as int));
            assert(urls@.take(i + 1).last() == urls@[i as int]);
            assert(kept@.map_values(|s: String| s@) =~= nonblank_urls(urls@.take(i + 1)));
        }
        i = i + 1;
    }
    proof {
        assert(urls@.take(n as int) =~= urls@);
    }
    if kept.len() == 0 {
        Err(String::from_str("TURN server urls missing"))
    } else {
        Ok(kept)
    }
}

/// Whether a token expiring at `expires_at` counts as expired at `now`: it
/// expires within 15 seconds.
pub fn access_token_expired_at(expires_at: i128, now: i128) -> (res: bool)
    requires
        time_in_range(now as int),
    ensures
        res == (expires_at <= now + 15_000_000_000),
{
    expires_at <= now + 15_000_000_000
}

/// Whether a token expiring at `expires_at` counts as expired now: it
/// expires within 15 seconds after the current time, a representable
/// instant.
pub fn access_token_expired(expires_at: i128) -> (res: bool)
    ensures
        exists|now: int| #[trigger] time_in_range(now) && res == (expires_at <= now + 15_000_000_000),
{
    let now = now_unix_nanos();
    let res = access_token_expired_at(expires_at, now);
    assert(time_in_range(now as int) && res == (expires_at <= now as int + 15_000_000_000));
    res
}

/// The body of a gateway error reply: its `error` and `detail` fields; a
/// reply that is not such JSON counts as its whole text in `detail`.
#[derive(Debug, Clone)]
pub struct ErrorBody {
    pub error: Option<String>,
    pub detail: Option<String>,
}

/// What an error reply says went wrong: its detail, else its error, else
/// `default`.
pub open spec fn spec_error_reason(body: ErrorBody, default: Seq<char>) -> Seq<char> {
    match body.detail {
        Some(d) => d@,
        None => match body.error {
            Some(e) => e@,
            None => default,
        },
    }
}

/// What an error reply says went wrong: its detail, else its error, else
/// `default`.
pub fn error_reason(body: ErrorBody, default: &str) -> (res: String)
    ensures
        res@ == spec_error_reason(body, default@),
{
    match body.detail {
        Some(d) => d,
        None => match body.error {
            Some(e) => e,
            None => String::from_str(default),
        },
    }
}

/// The message `"<what> (<status>): <reason>"` of a failed gateway call.
pub open spec fn spec_failure_message(what: Seq<char>, status_text: Seq<char>, reason: Seq<char>) -> Seq<char> {
    what + " ("@ + status_text + "): "@ + reason
}

fn failure_message(what: &str, status_text: &str, reason: String) -> (res: String)
    ensures
        res@ == spec_failure_message(what@, status_text@, reason@),
{
    String::from_str(what).concat(" (").concat(status_text).concat("): ").concat(reason.as_str())
}

/// Whether a device-login detail says to keep polling.
pub open spec fn spec_detail_pending(detail: Seq<char>) -> bool {
    has_infix(detail, "authorization_pending"@) || has_infix(detail, "slow_down"@)
}

/// The error for a device-login finish that the gateway answered with
/// `status` (shown as `status_text`) and `body`: on 400 or 502, a detail
/// naming `authorization_pending` or `slow_down` means keep polling and one
/// naming `access_denied` means denied; 401 means denied; anything else is
/// a gateway error with the reason.
pub fn device_finish_error(status: u16, status_text: &str, body: ErrorBody) -> (res: AuthError)
    ensures
        ({
            let detail_says = (status == 400 || status == 502) && body.detail is Some;
            let d = body.detail->0@;
            if detail_says && spec_detail_pending(d) {
                res is AuthorizationPending
            } else if detail_says && has_infix(d, "access_denied"@) {
                res is AuthorizationDenied
            } else if status == 401 {
                res is AuthorizationDenied
            } else {
                res matches AuthError::Gateway(m) && m@ == spec_failure_message(
                    "device finish failed"@,
                    status_text@,
                    spec_error_reason(body, "unknown error"@),
                )
            }
        }),
{
    if status == 400 || status == 502 {
        if let Some(detail) = &body.detail {
            let d = str_chars(detail.as_str());
            if contains(&d, &str_chars("authorization_pending")) {
                return AuthError::AuthorizationPending;
            }
            if contains(&d, &str_chars("slow_down")) {
                return AuthError::AuthorizationPending;
            }
            if contains(&d, &str_chars("access_denied")) {
                return AuthError::AuthorizationDenied;
            }
        }
    }
    if status == 401 {
        return AuthError::AuthorizationDenied;
    }
    let reason = error_reason(body, "unknown error");
    AuthError::Gateway(failure_message("device finish failed", status_text, reason))
}

/// The error for a token refresh that the gateway answered with `status`
/// (shown as `status_text`) and `body`: 401 means not logged in; anything
/// else is a gateway error with the reason.
pub fn refresh_tokens_error(status: u16, status_text: &str, body: ErrorBody) -> (res: AuthError)
    ensures
        status == 401 ==> res is NotLoggedIn,
        status != 401 ==> (res matches AuthError::Gateway(m) && m@ == spec_failure_message(
            "token refresh failed"@,
            status_text@,
            spec_error_reason(body, "unknown error"@),
        )),
{
    if status == 401 {
        return AuthError::NotLoggedIn;
    }
    let reason = error_reason(body, "unknown error");
    AuthError::Gateway(failure_message("token refresh failed", status_text, reason))
}

/// The error for a TURN credentials request that the gateway answered with
/// `status` (shown as `status_text`) and `body`: 403 means not entitled,
/// 401 not logged in, 503 a gateway error with the reason alone; anything
/// else a gateway error with status and reason.
pub fn turn_credentials_error(status: u16, status_text: &str, body: ErrorBody) -> (res: AuthError)
    ensures
        status == 403 ==> res is TurnNotEntitled,
        status == 401 ==> res is NotLoggedIn,
        status == 503 ==> (res matches AuthError::Gateway(m) && m@ == spec_error_reason(
            body,
            "turn credentials service unavailable"@,
        )),
        status != 403 && status != 401 && status != 503 ==> (res matches AuthError::Gateway(m) && m@
            == spec_failure_message(
            "turn credentials request failed"@,
            status_text@,
            spec_error_reason(body, "unknown error"@),
        )),
{
    if status == 403 {
        return AuthError::TurnNotEntitled;
    }
    if status == 401 {
        return AuthError::NotLoggedIn;
    }
    if status == 503 {
        return AuthError::Gateway(error_reason(body, "turn credentials service unavailable"));
    }
    let reason = error_reason(body, "unknown error");
    AuthError::Gateway(failure_message("turn credentials request failed", status_text, reason))
}

} // verus!

//! Where Beach Auth lives and what tokens are asked for.

use vstd::prelude::*;
use vstd::string::StringExecFns;

use super::error::AuthError;
use crate::text::{spec_trim, str_trim};

verus! {

/// The gateway used when `BEACH_AUTH_GATEWAY` is not set.
pub open spec fn spec_default_gateway() -> Seq<char> {
    "https://auth.beach.sh"@
}

/// What `Url::parse` of url gives for `text`: the URL written out
/// (`Display`), or the message (`Display`) of the error it refuses it with.
pub uninterp spec fn spec_url_parse(text: Seq<char>) -> Result<Seq<char>, Seq<char>>;

/// `Url::parse` of url, the URL or the error written out; the result is
/// given the name `spec_url_parse`.
#[verifier::external_body]
fn parse_url(text: &str) -> (res: Result<String, String>)
    ensures
        match res {
            Ok(u) => spec_url_parse(text@) == Ok::<Seq<char>, Seq<char>>(u@),
            Err(e) => spec_url_parse(text@) == Err::<Seq<char>, Seq<char>>(e@),
        },
{
    match url::Url::parse(text) {
        Ok(url) => Ok(url.to_string()),
        Err(err) => Err(err.to_string()),
    }
}

/// A setting kept only when it is not blank.
pub fn nonblank_setting(value: Option<String>) -> (res: Option<String>)
    ensures
        match value {
            Some(s) => if spec_trim(s@).len() > 0 {
                res == Some(s)
            } else {
                res is None
            },
            None => res is None,
        },
{
    match value {
        Some(s) => {
            if str_trim(s.as_str()).is_empty() {
                None
            } else {
                Some(s)
            }
        },
        None => None,
    }
}

/// The Beach Auth gateway (a URL, written out) and the scope and audience
/// tokens are asked for.
#[derive(Debug, Clone)]
pub struct AuthConfig {
    pub gateway: String,
    pub scope: Option<String>,
    pub audience: Option<String>,
}

impl AuthConfig {
    /// The configuration the settings `BEACH_AUTH_GATEWAY` (default
    /// `https://auth.beach.sh`), `BEACH_AUTH_SCOPE` and
    /// `BEACH_AUTH_AUDIENCE` give: the gateway must be a URL (else a
    /// `Config` error naming the setting); blank scope and audience count
    /// as unset.
    pub fn from_settings(gateway: Option<String>, scope: Option<String>, audience: Option<String>) -> (res: Result<
        AuthConfig,
        AuthError,
    >)
        ensures
            ({
                let g = match gateway {
                    Some(s) => s@,
                    None => spec_default_gateway(),
                };
                match spec_url_parse(g) {
                    Ok(u) => res matches Ok(c) && c.gateway@ == u && c.scope == (match scope {
                        Some(s) if spec_trim(s@).len() > 0 => Some(s),
                        _ => None::<String>,
                    }) && c.audience == (match audience {
                        Some(s) if spec_trim(s@).len() > 0 => Some(s),
                        _ => None::<String>,
                    }),
                    Err(e) => res matches Err(AuthError::Config(m)) && m@ == "invalid BEACH_AUTH_GATEWAY: "@ + e,
                }
            }),
    {
        let gateway = match gateway {
            Some(g) => g,
            None => String::from_str("https://auth.beach.sh"),
        };
        match parse_url(gateway.as_str()) {
            Ok(url) => Ok(AuthConfig { gateway: url, scope: nonblank_setting(scope), audience: nonblank_setting(audience) }),
            Err(err) => {
                let mut msg = String::from_str("invalid BEACH_AUTH_GATEWAY: ");
                msg.append(err.as_str());
                Err(AuthError::Config(msg))
            },
        }
    }
}

} // verus!

//! Errors of Beach Auth.

use vstd::prelude::*;

verus! {

/// What went wrong in Beach Auth. Errors from I/O and HTTP are carried as
/// their messages.
#[derive(Debug)]
pub enum AuthError {
    Config(String),
    Io(String),
    Toml(String),
    Http(String),
    Gateway(String),
    Keyring(String),
    Encryption(String),
    NotLoggedIn,
    ProfileNotFound(String),
    FallbackNotEntitled,
    TurnNotEntitled,
    AuthorizationPending,
    AuthorizationDenied,
    PassphraseMissing,
    Other(String),
}

} // verus!

//! The passphrase that protects stored credentials.

use vstd::prelude::*;
use vstd::string::StringExecFns;

use super::error::AuthError;
use crate::text::{spec_trim, str_trim};

verus! {

/// The passphrase given by a raw setting (`BEACH_AUTH_PASSPHRASE`): trimmed
/// of white space, and absent when unset or blank.
pub fn normalize_passphrase(raw: Option<String>) -> (res: Option<String>)
    ensures
        raw is None ==> res is None,
        raw matches Some(s) ==> {
            let t = spec_trim(s@);
            &&& t.len() == 0 ==> res is None
            &&& t.len() > 0 ==> (res matches Some(p) && p@ == t)
        },
{
    match raw {
        None => None,
        Some(s) => {
            let trimmed = str_trim(s.as_str());
            if trimmed.is_empty() {
                None
            } else {
                Some(String::from_str(trimmed))
            }
        },
    }
}

/// The passphrase, or `PassphraseMissing` when none is configured.
/// `passphrase` is the configured value, as `normalize_passphrase` gives it.
pub fn require_passphrase(passphrase: Option<String>) -> (res: Result<String, AuthError>)
    ensures
        passphrase matches Some(p) ==> (res matches Ok(q) && q@ == p@),
        passphrase is None ==> res matches Err(AuthError::PassphraseMissing),
{
    match passphrase {
        Some(p) => Ok(p),
        None => Err(AuthError::PassphraseMissing),
    }
}

} // verus!

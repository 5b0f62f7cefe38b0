//! Client configuration.

use vstd::prelude::*;
use vstd::string::StrSliceExecFns;
use vstd::string::StringExecFns;

use crate::text::{starts_with, str_chars};

verus! {

/// The session server used when none is configured.
pub open spec fn spec_default_server() -> Seq<char> {
    "127.0.0.1:8080"@
}

/// A server address with a leading `localhost` rewritten to `127.0.0.1`, so
/// that IPv4 is used rather than IPv6 (`::1`).
pub open spec fn spec_normalize_server(s: Seq<char>) -> Seq<char> {
    if s.len() >= 10 && s.take(10) == "localhost:"@ {
        "127.0.0.1"@ + s.skip(9)
    } else {
        s
    }
}

/// Beach application configuration.
#[derive(Debug, Clone)]
pub struct Config {
    /// The session server address.
    pub session_server: String,
}

impl Config {
    /// The configuration for the session server setting `setting` (the
    /// value of `BEACH_SESSION_SERVER`, if set): the default
    /// `127.0.0.1:8080` when unset, and `localhost:` rewritten to
    /// `127.0.0.1:`.
    pub fn from_server_setting(setting: Option<String>) -> (res: Config)
        ensures
            res.session_server@ == spec_normalize_server(
                match setting {
                    Some(s) => s@,
                    None => spec_default_server(),
                },
            ),
    {
        let server = match setting {
            Some(s) => s,
            None => String::from_str("127.0.0.1:8080"),
        };
        let chars = str_chars(server.as_str());
        let prefix = str_chars("localhost:");
        proof {
            reveal_strlit("localhost:");
            reveal_strlit("127.0.0.1:8080");
        }
        if starts_with(&chars, &prefix) {
            assert(chars@.subrange(0, 10) == chars@.take(10));
            let n = server.as_str().unicode_len();
            let rest = server.as_str().substring_char(9, n);
            let mut out = String::from_str("127.0.0.1");
            out.append(rest);
            proof {
                reveal_strlit("127.0.0.1");
                assert(server@.subrange(9, n as int) =~= server@.skip(9));
            }
            Config { session_server: out }
        } else {
            proof {
                if server@.len() >= 10 && server@.take(10) == "localhost:"@ {
                    assert(chars@.subrange(0, 10) =~= prefix@);
                }
            }
            Config { session_server: server }
        }
    }

    /// The session server URL: for now the server address itself.
    pub fn session_server_url(&self) -> (res: String)
        ensures
            res@ == self.session_server@,
    {
        self.session_server.clone()
    }
}

impl Default for Config {
    fn default() -> (res: Config)
        ensures
            res.session_server@ == spec_default_server(),
    {
        Config { session_server: String::from_str("127.0.0.1:8080") }
    }
}

} // verus!

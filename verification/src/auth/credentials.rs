//! Stored Beach Auth credentials: profiles by name, each with its issuer,
//! its refresh token (in the OS keyring or passphrase-sealed) and a cached
//! access token; and which profile is current.

use vstd::prelude::*;
use vstd::string::StringExecFns;

use super::crypto::EncryptedBlob;
use super::error::AuthError;
use crate::assoc::{
    assoc_map, has_key, keys_unique, lemma_assoc_index, lemma_assoc_push, lemma_assoc_remove, lemma_assoc_update,
};

verus! {

/// The entitlement that allows falling back to the WebSocket relay.
pub open spec fn spec_fallback_entitlement() -> Seq<char> {
    "rescue:fallback"@
}

/// An access token and when it expires, in nanoseconds since the Unix
/// epoch.
#[derive(Debug, Clone)]
pub struct AccessTokenCache {
    pub token: String,
    pub expires_at: i128,
    pub entitlements: Vec<String>,
}

/// Where a refresh token is kept.
#[derive(Debug, Clone)]
pub enum RefreshTokenRecord {
    /// In the OS keyring, under a service and an account.
    Keyring { service: String, account: String },
    /// Sealed with the credentials passphrase.
    Encrypted { blob: EncryptedBlob },
}

/// A stored profile. Times are nanoseconds since the Unix epoch.
#[derive(Debug, Clone)]
pub struct StoredProfile {
    pub issuer: String,
    pub audience: Option<String>,
    pub tier: Option<String>,
    pub email: Option<String>,
    pub beach_profile: Option<String>,
    pub refresh: RefreshTokenRecord,
    pub entitlements: Vec<String>,
    pub access_token: Option<AccessTokenCache>,
    pub updated_at: i128,
}

/// The credentials file: profiles by name and the current profile's name.
#[derive(Debug, Clone)]
pub struct CredentialsStore {
    pub current_profile: Option<String>,
    pub profiles: Vec<(String, StoredProfile)>,
}

/// The earliest and latest instants the `time` crate represents, in
/// nanoseconds since the Unix epoch (years -9999 and 9999).
pub open spec fn time_min_nanos() -> int {
    -377705116800_000000000
}

pub open spec fn time_max_nanos() -> int {
    253402300799_999999999
}

/// Whether `t` is an instant the `time` crate represents.
pub open spec fn time_in_range(t: int) -> bool {
    time_min_nanos() <= t <= time_max_nanos()
}

/// The current time (`time::OffsetDateTime::now_utc` of the `time` crate) in
/// nanoseconds since the Unix epoch; it lies in the range the crate
/// represents, and nothing more is stated of it.
#[verifier::external_body]
pub(crate) fn now_unix_nanos() -> (res: i128)
    ensures
        time_in_range(res as int),
{
    time::OffsetDateTime::now_utc().unix_timestamp_nanos()
}

/// The expiry of a token issued at `now` that lasts `seconds` seconds; the
/// count is read as an `i64`, as the `time` crate's `Duration::seconds`
/// takes it.
pub open spec fn expiry_after(now: int, seconds: u64) -> int {
    now + (seconds as i64) * 1_000_000_000
}

/// The profile names of a store with their profiles.
pub open spec fn profile_pairs(s: Seq<(String, StoredProfile)>) -> Seq<(Seq<char>, StoredProfile)> {
    s.map_values(|p: (String, StoredProfile)| (p.0@, p.1))
}

/// Whether some entitlement of `ents` is `want`.
pub open spec fn has_entitlement(ents: Seq<String>, want: Seq<char>) -> bool {
    exists|i: int| 0 <= i < ents.len() && (#[trigger] ents[i])@ == want
}

impl CredentialsStore {
    /// The profiles by name.
    pub open spec fn profile_map(&self) -> Map<Seq<char>, StoredProfile> {
        assoc_map(profile_pairs(self.profiles@))
    }

    /// No profile name occurs twice.
    pub open spec fn wf(&self) -> bool {
        keys_unique(profile_pairs(self.profiles@))
    }

    /// The name of the current profile.
    pub open spec fn current(&self) -> Option<Seq<char>> {
        match self.current_profile {
            Some(c) => Some(c@),
            None => None,
        }
    }

    /// An empty store.
    pub fn new() -> (res: Self)
        ensures
            res.wf(),
            res.profile_map() == Map::<Seq<char>, StoredProfile>::empty(),
            res.current() is None,
    {
        let res = CredentialsStore { current_profile: None, profiles: Vec::new() };
        proof {
            assert(profile_pairs(res.profiles@) =~= Seq::<(Seq<char>, StoredProfile)>::empty());
            crate::assoc::lemma_assoc_empty::<Seq<char>, StoredProfile>();
        }
        res
    }

    /// The index of profile `name`, if stored.
    fn find(&self, name: &str) -> (res: Option<usize>)
        requires
            self.wf(),
        ensures
            res matches Some(i) ==> i < self.profiles@.len() && self.profiles@[i as int].0@ == name@
                && self.profile_map().contains_key(name@) && self.profile_map()[name@] == self.profiles@[i as int].1,
            res is None ==> !self.profile_map().contains_key(name@),
    {
        let n = self.profiles.len();
        let mut i: usize = 0;
        while i < n
            invariant
                self.wf(),
                n == self.profiles@.len(),
                i <= n,
                forall|j: int| 0 <= j < i ==> (#[trigger] self.profiles@[j]).0@ != name@,
            decreases n - i,
        {
            if crate::text::str_eq(self.profiles[i].0.as_str(), name) {
                proof {
                    assert(profile_pairs(self.profiles@)[i as int].0 == name@);
                    lemma_assoc_index(profile_pairs(self.profiles@), i as int);
                }
                return Some(i);
            }
            i = i + 1;
        }
        proof {
            if has_key(profile_pairs(self.profiles@), name@) {
                let j = choose|j: int| 0 <= j < n && profile_pairs(self.profiles@)[j].0 == name@;
                assert(self.profiles@[j].0@ == name@);
            }
        }
        None
    }

    /// Profile `name`, if stored.
    pub fn profile(&self, name: &str) -> (res: Option<&StoredProfile>)
        requires
            self.wf(),
        ensures
            res is Some <==> self.profile_map().contains_key(name@),
            res matches Some(p) ==> *p == self.profile_map()[name@],
    {
        match self.find(name) {
            Some(i) => Some(&self.profiles[i].1),
            None => None,
        }
    }

    /// Stores `profile` as `name`, replacing one of that name; it becomes
    /// current when `set_current` asks it or no profile is current.
    pub fn upsert_profile(&mut self, name: String, profile: StoredProfile, set_current: bool)
        requires
            old(self).wf(),
        ensures
            final(self).wf(),
            final(self).profile_map() == old(self).profile_map().insert(name@, profile),
            final(self).current() == (if set_current || old(self).current() is None {
                Some(name@)
            } else {
                old(self).current()
            }),
    {
        let ghost before = profile_pairs(self.profiles@);
        let ghost nm = name@;
        let ghost pr = profile;
        match self.find(name.as_str()) {
            Some(i) => {
                let key = self.profiles[i].0.clone();
                proof {
                    lemma_assoc_update(before, i as int, profile);
                }
                self.profiles.set(i, (key, profile));
                proof {
                    assert(profile_pairs(self.profiles@) =~= before.update(i as int, (before[i as int].0, pr)));
                }
            },
            None => {
                proof {
                    lemma_assoc_push(before, name@, profile);
                }
                let copy = name.clone();
                self.profiles.push((copy, profile));
                proof {
                    assert(profile_pairs(self.profiles@) =~= before.push((nm, pr)));
                }
            },
        }
        if set_current || self.current_profile.is_none() {
            self.current_profile = Some(name);
        }
    }

    /// Records that profile `name` (when stored) now holds `entitlements`
    /// and drops its cached access token, updating it at `now`; the current
    /// profile stays as it is.
    pub fn record_entitlements_revoked(&mut self, name: &str, entitlements: Vec<String>, now: i128)
        requires
            old(self).wf(),
        ensures
            final(self).wf(),
            final(self).current() == old(self).current(),
            old(self).profile_map().contains_key(name@) ==> final(self).profile_map() == old(self).profile_map().insert(
                name@,
                StoredProfile {
                    entitlements,
                    access_token: None,
                    updated_at: now,
                    ..old(self).profile_map()[name@]
                },
            ),
            !old(self).profile_map().contains_key(name@) ==> final(self).profile_map() == old(self).profile_map(),
    {
        match self.find(name) {
            Some(i) => {
                let ghost before = profile_pairs(self.profiles@);
                let ghost raw = self.profiles@;
                let (key, mut profile) = self.profiles.remove(i);
                profile.entitlements = entitlements;
                profile.clear_access_token_at(now);
                let ghost pr = profile;
                let ghost k = key;
                proof {
                    lemma_assoc_update(before, i as int, profile);
                }
                self.profiles.insert(i, (key, profile));
                proof {
                    assert(self.profiles@ =~= raw.update(i as int, (k, pr)));
                    assert(profile_pairs(self.profiles@) =~= before.update(i as int, (before[i as int].0, pr)));
                }
            },
            None => {},
        }
    }

    /// The names of the stored profiles in lexicographic order.
    pub fn profile_names(&self) -> (res: Vec<String>)
        requires
            self.wf(),
        ensures
            res@.len() == self.profiles@.len(),
            forall|i: int, j: int| 0 <= i < j < res@.len() ==> crate::text::lex_lt(res@[i]@, res@[j]@),
            forall|i: int| 0 <= i < res@.len() ==> self.profile_map().contains_key(#[trigger] res@[i]@),
            forall|k: Seq<char>| #[trigger] self.profile_map().contains_key(k) ==> exists|i: int|
                0 <= i < res@.len() && res@[i]@ == k,
    {
        let ghost pairs = profile_pairs(self.profiles@);
        let n = self.profiles.len();
        let mut out: Vec<String> = Vec::new();
        let mut i: usize = 0;
        while i < n
            invariant
                self.wf(),
                pairs == profile_pairs(self.profiles@),
                n == pairs.len(),
                i <= n,
                out@.len() == i,
                forall|a: int, b: int| 0 <= a < b < out@.len() ==> crate::text::lex_lt(out@[a]@, out@[b]@),
                forall|a: int| 0 <= a < out@.len() ==> exists|j: int| 0 <= j < i && pairs[j].0 == (#[trigger] out@[a])@,
                forall|j: int| 0 <= j < i ==> exists|a: int| 0 <= a < out@.len() && (#[trigger] pairs[j]).0 == out@[a]@,
            decreases n - i,
        {
            let name = self.profiles[i].0.clone();
            let chars = crate::text::str_chars(name.as_str());
            let ghost x = name@;
            assert(pairs[i as int].0 == x);
            let mut p: usize = 0;
            while p < out.len() && !crate::text::lex_less(&chars, &crate::text::str_chars(out[p].as_str()))
                invariant
                    p <= out@.len(),
                    chars@ == x,
                    forall|a: int| 0 <= a < p ==> !crate::text::lex_lt(x, (#[trigger] out@[a])@),
                decreases out@.len() - p,
            {
                p = p + 1;
            }
            let ghost before = out@;
            proof {
                assert forall|a: int| 0 <= a < before.len() implies (#[trigger] before[a])@ != x by {
                    let j = choose|j: int| 0 <= j < i && pairs[j].0 == before[a]@;
                    assert(j != i);
                }
                assert forall|a: int| 0 <= a < p implies crate::text::lex_lt((#[trigger] before[a])@, x) by {
                    crate::text::lemma_lex_total(before[a]@, x);
                }
                assert forall|a: int| p <= a < before.len() implies crate::text::lex_lt(x, (#[trigger] before[a])@) by {
                    if a > p {
                        crate::text::lemma_lex_transitive(x, before[p as int]@, before[a]@);
                    }
                }
            }
            out.insert(p, name);
            proof {
                assert(out@ == before.insert(p as int, out@[p as int]));
                assert forall|a: int, b: int| 0 <= a < b < out@.len() implies crate::text::lex_lt(out@[a]@, out@[b]@) by {
                    if a < p && b < p {
                        assert(out@[a] == before[a] && out@[b] == before[b]);
                    } else if a < p && b == p {
                        assert(out@[a] == before[a]);
                    } else if a < p && b > p {
                        assert(out@[a] == before[a] && out@[b] == before[b - 1]);
                        crate::text::lemma_lex_transitive(before[a]@, x, before[b - 1]@);
                    } else if a == p {
                        assert(out@[b] == before[b - 1]);
                    } else {
                        assert(out@[a] == before[a - 1] && out@[b] == before[b - 1]);
                    }
                }
                assert forall|a: int| 0 <= a < out@.len() implies exists|j: int| 0 <= j < i + 1 && pairs[j].0 == (#[trigger] out@[a])@ by {
                    if a < p {
                        assert(out@[a] == before[a]);
                        let j = choose|j: int| 0 <= j < i && pairs[j].0 == before[a]@;
                    } else if a == p {
                        assert(pairs[i as int].0 == out@[a]@);
                    } else {
                        assert(out@[a] == before[a - 1]);
                        let j = choose|j: int| 0 <= j < i && pairs[j].0 == before[a - 1]@;
                    }
                }
                assert forall|j: int| 0 <= j < i + 1 implies exists|a: int| 0 <= a < out@.len() && (#[trigger] pairs[j]).0 == out@[a]@ by {
                    if j < i {
                        let a = choose|a: int| 0 <= a < before.len() && pairs[j].0 == before[a]@;
                        if a < p {
                            assert(out@[a] == before[a]);
                        } else {
                            assert(out@[a + 1] == before[a]);
                        }
                    } else {
                        assert(pairs[j].0 == out@[p as int]@);
                    }
                }
            }
            i = i + 1;
        }
        proof {
            assert forall|a: int| 0 <= a < out@.len() implies self.profile_map().contains_key(#[trigger] out@[a]@) by {
                let j = choose|j: int| 0 <= j < n && pairs[j].0 == out@[a]@;
                lemma_assoc_index(pairs, j);
            }
            assert forall|k: Seq<char>| #[trigger] self.profile_map().contains_key(k) implies exists|a: int|
                0 <= a < out@.len() && out@[a]@ == k by {
                let j = choose|j: int| 0 <= j < pairs.len() && pairs[j].0 == k;
                let a = choose|a: int| 0 <= a < out@.len() && (#[trigger] pairs[j]).0 == out@[a]@;
            }
        }
        out
    }

    /// The name of some stored profile, if any.
    fn first_name(&self) -> (res: Option<String>)
        requires
            self.wf(),
        ensures
            res matches Some(n) ==> self.profile_map().contains_key(n@),
            res is None ==> self.profile_map().is_empty(),
    {
        if self.profiles.len() > 0 {
            proof {
                lemma_assoc_index(profile_pairs(self.profiles@), 0);
            }
            Some(self.profiles[0].0.clone())
        } else {
            proof {
                assert(profile_pairs(self.profiles@) =~= Seq::<(Seq<char>, StoredProfile)>::empty());
                crate::assoc::lemma_assoc_empty::<Seq<char>, StoredProfile>();
                assert(self.profile_map().dom() =~= Set::empty());
            }
            None
        }
    }

    /// Removes profile `name` and returns it; when it was current, another
    /// stored profile (any one) becomes current, or none when none is left.
    /// Deleting its refresh token from the keyring is the caller's part.
    pub fn remove_profile(&mut self, name: &str) -> (res: Option<StoredProfile>)
        requires
            old(self).wf(),
        ensures
            final(self).wf(),
            final(self).profile_map() == old(self).profile_map().remove(name@),
            res is Some <==> old(self).profile_map().contains_key(name@),
            res matches Some(p) ==> p == old(self).profile_map()[name@],
            old(self).current() != Some(name@) ==> final(self).current() == old(self).current(),
            old(self).current() == Some(name@) ==> match final(self).current() {
                Some(c) => final(self).profile_map().contains_key(c),
                None => final(self).profile_map().is_empty(),
            },
    {
        let ghost before = profile_pairs(self.profiles@);
        let removed = match self.find(name) {
            Some(i) => {
                let (_, p) = self.profiles.remove(i);
                proof {
                    lemma_assoc_remove(before, i as int);
                    assert(profile_pairs(self.profiles@) =~= before.remove(i as int));
                }
                Some(p)
            },
            None => {
                proof {
                    assert(assoc_map(before).remove(name@) =~= assoc_map(before));
                }
                None
            },
        };
        let is_current = match &self.current_profile {
            Some(current) => crate::text::str_eq(current.as_str(), name),
            None => false,
        };
        if is_current {
            self.current_profile = self.first_name();
        }
        removed
    }

    /// Makes profile `name` current, or none; an unknown profile is refused
    /// with `ProfileNotFound` and nothing changes.
    pub fn set_current_profile(&mut self, name: Option<String>) -> (res: Result<(), AuthError>)
        requires
            old(self).wf(),
        ensures
            final(self).wf(),
            final(self).profile_map() == old(self).profile_map(),
            match name {
                Some(n) => if old(self).profile_map().contains_key(n@) {
                    res is Ok && final(self).current() == Some(n@)
                } else {
                    res matches Err(AuthError::ProfileNotFound(m)) && m@ == n@ && final(self).current()
                        == old(self).current()
                },
                None => res is Ok && final(self).current() is None,
            },
    {
        if let Some(name_ref) = &name {
            if self.find(name_ref.as_str()).is_none() {
                return Err(AuthError::ProfileNotFound(name_ref.clone()));
            }
        }
        self.current_profile = name;
        Ok(())
    }

    /// The profile to act as: `override_profile` if given, else the
    /// `BEACH_PROFILE` setting (`env_profile`) if not blank, else the current
    /// profile.
    pub fn ensure_profile_environment(&self, override_profile: Option<&str>, env_profile: Option<String>) -> (res:
        Option<String>)
        ensures
            match override_profile {
                Some(o) => res matches Some(r) && r@ == o@,
                None => match env_profile {
                    Some(e) if crate::text::spec_trim(e@).len() > 0 => res matches Some(r) && r@ == e@,
                    _ => match res {
                        Some(r) => self.current() == Some(r@),
                        None => self.current() is None,
                    },
                },
            },
    {
        if let Some(name) = override_profile {
            return Some(String::from_str(name));
        }
        if let Some(env) = env_profile {
            if !crate::text::str_trim(env.as_str()).is_empty() {
                return Some(env);
            }
        }
        self.current_profile.clone()
    }

    /// Makes sure the current profile is stored: when it is not, another
    /// stored profile (any one) becomes current, or none.
    pub fn compact(&mut self)
        requires
            old(self).wf(),
        ensures
            final(self).wf(),
            final(self).profile_map() == old(self).profile_map(),
            match old(self).current() {
                Some(c) => if old(self).profile_map().contains_key(c) {
                    final(self).current() == Some(c)
                } else {
                    match final(self).current() {
                        Some(c2) => final(self).profile_map().contains_key(c2),
                        None => final(self).profile_map().is_empty(),
                    }
                },
                None => final(self).current() is None,
            },
    {
        let missing = match &self.current_profile {
            Some(current) => self.find(current.as_str()).is_none(),
            None => false,
        };
        if missing {
            self.current_profile = self.first_name();
        }
    }
}

impl StoredProfile {
    /// Whether the profile holds the WebSocket-fallback entitlement.
    pub fn has_fallback_entitlement(&self) -> (res: bool)
        ensures
            res == has_entitlement(self.entitlements@, spec_fallback_entitlement()),
    {
        contains_entitlement(&self.entitlements, "rescue:fallback")
    }

    /// Caches `token`, issued at `now` and valid for `expires_in_seconds`,
    /// with its entitlements; the profile is updated at `now`.
    pub fn cache_access_token_at(&mut self, token: String, expires_in_seconds: u64, entitlements: Vec<String>, now: i128)
        requires
            time_in_range(now as int),
            time_in_range(expiry_after(now as int, expires_in_seconds)),
        ensures
            *final(self) == (StoredProfile {
                access_token: Some(
                    AccessTokenCache {
                        token,
                        expires_at: expiry_after(now as int, expires_in_seconds) as i128,
                        entitlements,
                    },
                ),
                updated_at: now,
                ..*old(self)
            }),
    {
        let seconds = expires_in_seconds as i64;
        let expires_at = now + (seconds as i128) * 1_000_000_000;
        self.access_token = Some(AccessTokenCache { token, expires_at, entitlements });
        self.updated_at = now;
    }

    /// Caches `token`, valid for `expires_in_seconds` from now, with its
    /// entitlements; the profile is updated now. When the expiry would lie
    /// past the instants the `time` crate represents, nothing changes; that
    /// happens only for a lifetime that some representable instant cannot
    /// be extended by.
    pub fn cache_access_token(&mut self, token: String, expires_in_seconds: u64, entitlements: Vec<String>) -> (res:
        bool)
        ensures
            res ==> {
                let now = final(self).updated_at as int;
                &&& time_in_range(now)
                &&& time_in_range(expiry_after(now, expires_in_seconds))
                &&& *final(self) == (StoredProfile {
                    access_token: Some(
                        AccessTokenCache {
                            token,
                            expires_at: expiry_after(now, expires_in_seconds) as i128,
                            entitlements,
                        },
                    ),
                    updated_at: final(self).updated_at,
                    ..*old(self)
                })
            },
            !res ==> *final(self) == *old(self) && exists|t: int|
                #[trigger] time_in_range(t) && !time_in_range(expiry_after(t, expires_in_seconds)),
    {
        let now = now_unix_nanos();
        let seconds = expires_in_seconds as i64;
        let expires_at = now + (seconds as i128) * 1_000_000_000;
        if expires_at < -377705116800_000000000i128 || expires_at > 253402300799_999999999i128 {
            assert(time_in_range(now as int) && !time_in_range(expiry_after(now as int, expires_in_seconds)));
            return false;
        }
        self.cache_access_token_at(token, expires_in_seconds, entitlements, now);
        true
    }

    /// Drops the cached access token; the profile is updated at `now`.
    pub fn clear_access_token_at(&mut self, now: i128)
        ensures
            *final(self) == (StoredProfile { access_token: None, updated_at: now, ..*old(self) }),
    {
        self.access_token = None;
        self.updated_at = now;
    }

    /// Drops the cached access token; the profile is updated now.
    pub fn clear_access_token(&mut self)
        ensures
            *final(self) == (StoredProfile { access_token: None, updated_at: final(self).updated_at, ..*old(self) }),
            time_in_range(final(self).updated_at as int),
    {
        let now = now_unix_nanos();
        self.clear_access_token_at(now);
    }
}

/// Whether some entitlement of `ents` is `want`.
pub fn contains_entitlement(ents: &Vec<String>, want: &str) -> (res: bool)
    ensures
        res == has_entitlement(ents@, want@),
{
    let n = ents.len();
    let mut i: usize = 0;
    while i < n
        invariant
            n == ents@.len(),
            i <= n,
            forall|j: int| 0 <= j < i ==> (#[trigger] ents@[j])@ != want@,
        decreases n - i,
    {
        if crate::text::str_eq(ents[i].as_str(), want) {
            return true;
        }
        i = i + 1;
    }
    false
}

/// Whether a cached token is still good at `now`: it expires more than 30
/// seconds later.
pub fn access_token_is_valid_at(entry: &AccessTokenCache, now: i128) -> (res: bool)
    requires
        time_in_range(now as int),
    ensures
        res == (entry.expires_at > now + 30_000_000_000),
{
    entry.expires_at > now + 30_000_000_000
}

/// Whether a cached token is still good now: it expires more than 30
/// seconds after the current time, a representable instant.
pub fn access_token_is_valid(entry: &AccessTokenCache) -> (res: bool)
    ensures
        exists|now: int| #[trigger] time_in_range(now) && res == (entry.expires_at > now + 30_000_000_000),
{
    let now = now_unix_nanos();
    let res = access_token_is_valid_at(entry, now);
    assert(time_in_range(now as int) && res == (entry.expires_at > now as int + 30_000_000_000));
    res
}

} // verus!

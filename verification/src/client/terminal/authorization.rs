//! Waiting for the host to approve a join: the state the client shows in
//! its connection indicator, how status signals from the host and the
//! passing of time move it, and what the indicator reads.
//!
//! Times are readings of a monotonic clock in milliseconds, supplied by the
//! caller.

use vstd::prelude::*;
use vstd::string::StringExecFns;

use crate::cache::terminal::packed::Style;
use crate::text::{occurs_at, spec_trim, starts_with, str_chars, str_eq, str_trim, string_from_chars};

verus! {

/// Where the join stands.
#[derive(Clone, Copy, Debug, PartialEq, Eq, Structural)]
pub enum AuthorizationState {
    Connecting,
    Waiting,
    Approved,
    Denied,
}

/// How long to show "connecting" before waiting for approval.
pub open spec fn fallback_wait_ms() -> u64 {
    750
}

/// How often the spinner turns.
pub open spec fn spinner_interval_ms() -> u64 {
    120
}

/// How long the approval message stays.
pub open spec fn approved_message_ms() -> u64 {
    1200
}

/// How long after a denial the client exits.
pub open spec fn denied_exit_delay_ms() -> u64 {
    1200
}

/// After how long waiting the first and the second hint are shown.
pub open spec fn hint_one_ms() -> u64 {
    10_000
}

pub open spec fn hint_two_ms() -> u64 {
    30_000
}

pub open spec fn wait_message() -> Seq<char> {
    "Waiting for host approval..."@
}

pub open spec fn wait_message_init() -> Seq<char> {
    "Connected - waiting for host approval..."@
}

pub open spec fn wait_message_syncing() -> Seq<char> {
    "Connected - syncing remote session..."@
}

pub open spec fn wait_hint_one() -> Seq<char> {
    "Still waiting... hang tight."@
}

pub open spec fn wait_hint_two() -> Seq<char> {
    "Still waiting... ask the host to approve."@
}

pub open spec fn approved_message() -> Seq<char> {
    "Approved - syncing..."@
}

pub open spec fn denied_message() -> Seq<char> {
    "Join request was declined by host."@
}

/// The message shown when the connection closes before approval.
pub open spec fn disconnected_message() -> Seq<char> {
    "Disconnected before approval."@
}

/// The message shown when the connection closes before approval.
pub fn disconnected_before_approval() -> (res: String)
    ensures
        res@ == disconnected_message(),
{
    String::from_str("Disconnected before approval.")
}

/// The join's authorization as the client tracks it.
#[derive(Clone, Debug)]
pub struct Authorization {
    state: AuthorizationState,
    message: Option<String>,
    pending_hint: bool,
    hint_level: u8,
    spinner_index: usize,
    wait_started: Option<u64>,
    last_tick: u64,
    approved_since: Option<u64>,
    shutdown_at: Option<u64>,
    connect_started_at: u64,
}

/// The content of an `Authorization`.
pub struct AuthorizationView {
    pub state: AuthorizationState,
    pub message: Option<Seq<char>>,
    /// Whether the host said approval is pending before the client gave up
    /// waiting for a word.
    pub pending_hint: bool,
    pub hint_level: u8,
    pub spinner_index: usize,
    pub wait_started: Option<u64>,
    pub last_tick: u64,
    pub approved_since: Option<u64>,
    pub shutdown_at: Option<u64>,
    pub connect_started_at: u64,
}

/// The view of an optional string.
pub open spec fn opt_view(s: Option<String>) -> Option<Seq<char>> {
    match s {
        Some(t) => Some(t@),
        None => None,
    }
}

impl View for Authorization {
    type V = AuthorizationView;

    closed spec fn view(&self) -> AuthorizationView {
        AuthorizationView {
            state: self.state,
            message: opt_view(self.message),
            pending_hint: self.pending_hint,
            hint_level: self.hint_level,
            spinner_index: self.spinner_index,
            wait_started: self.wait_started,
            last_tick: self.last_tick,
            approved_since: self.approved_since,
            shutdown_at: self.shutdown_at,
            connect_started_at: self.connect_started_at,
        }
    }
}

/// The spinner stays on one of its four frames.
pub open spec fn auth_wf(v: AuthorizationView) -> bool {
    v.spinner_index < 4
}

/// `value` when given, else `default`.
pub open spec fn or_default(value: Option<Seq<char>>, default: Seq<char>) -> Seq<char> {
    match value {
        Some(v) => v,
        None => default,
    }
}

/// The authorization after moving to `state` with `message` at `now`: no
/// change when both are as they were; otherwise the hints start over, and
/// per state: waiting keeps the time waiting started (or starts it) and
/// restarts the spinner; approval remembers when it came so its message can
/// fade; denial schedules the exit; connecting clears the timers. A missing
/// message is replaced by the state's own.
pub open spec fn spec_set_state(
    v: AuthorizationView,
    state: AuthorizationState,
    message: Option<Seq<char>>,
    now: u64,
) -> AuthorizationView {
    if v.state == state && v.message == message {
        v
    } else {
        match state {
            AuthorizationState::Waiting => AuthorizationView {
                state,
                hint_level: 0,
                message: Some(or_default(message, wait_message())),
                wait_started: if v.wait_started is None {
                    Some(now)
                } else {
                    v.wait_started
                },
                last_tick: now,
                spinner_index: 0,
                approved_since: None,
                shutdown_at: None,
                ..v
            },
            AuthorizationState::Approved => AuthorizationView {
                state,
                hint_level: 0,
                pending_hint: false,
                message: Some(or_default(message, approved_message())),
                wait_started: None,
                last_tick: now,
                spinner_index: 0,
                approved_since: Some(now),
                shutdown_at: None,
                ..v
            },
            AuthorizationState::Denied => AuthorizationView {
                state,
                hint_level: 0,
                pending_hint: false,
                message: Some(or_default(message, denied_message())),
                wait_started: None,
                approved_since: None,
                shutdown_at: Some((now + denied_exit_delay_ms()) as u64),
                ..v
            },
            AuthorizationState::Connecting => AuthorizationView {
                state,
                hint_level: 0,
                pending_hint: false,
                message,
                wait_started: None,
                approved_since: None,
                shutdown_at: None,
                last_tick: now,
                spinner_index: 0,
                ..v
            },
        }
    }
}

/// Time passed from `then` to `now`, zero when `now` is earlier.
pub open spec fn elapsed(now: u64, then: u64) -> u64 {
    if now >= then {
        (now - then) as u64
    } else {
        0
    }
}

/// The first step of a tick: after connecting for long enough, start
/// waiting for approval (saying the host is reached, or that the session
/// is syncing when the host never said approval is pending).
pub open spec fn tick_connecting(v: AuthorizationView, now: u64) -> AuthorizationView {
    if v.state == AuthorizationState::Connecting && elapsed(now, v.connect_started_at) >= fallback_wait_ms() {
        spec_set_state(
            v,
            AuthorizationState::Waiting,
            Some(
                if v.pending_hint {
                    wait_message_init()
                } else {
                    wait_message_syncing()
                },
            ),
            now,
        )
    } else {
        v
    }
}

/// The second step: while waiting, turn the spinner every interval.
pub open spec fn tick_spinner(v: AuthorizationView, now: u64) -> AuthorizationView {
    if v.state == AuthorizationState::Waiting && elapsed(now, v.last_tick) >= spinner_interval_ms() {
        AuthorizationView { spinner_index: ((v.spinner_index + 1) % 4) as usize, last_tick: now, ..v }
    } else {
        v
    }
}

/// Which hint waiting for `waited` milliseconds calls for.
pub open spec fn hint_level_for(waited: u64) -> u8 {
    if waited >= hint_two_ms() {
        2
    } else if waited >= hint_one_ms() {
        1
    } else {
        0
    }
}

/// The message a hint level shows.
pub open spec fn hint_message(level: u8) -> Seq<char> {
    if level == 2 {
        wait_hint_two()
    } else if level == 1 {
        wait_hint_one()
    } else {
        wait_message()
    }
}

/// The third step: while waiting, move to the hint the wait calls for; the
/// message changes only while it is one of the plain waiting messages.
pub open spec fn tick_hint(v: AuthorizationView, now: u64) -> AuthorizationView {
    if v.state == AuthorizationState::Waiting && v.wait_started is Some {
        let level = hint_level_for(elapsed(now, v.wait_started->0));
        if level != v.hint_level {
            let current = or_default(v.message, wait_message());
            if current == wait_message() || current == wait_message_init() {
                AuthorizationView { hint_level: level, message: Some(hint_message(level)), ..v }
            } else {
                AuthorizationView { hint_level: level, ..v }
            }
        } else {
            v
        }
    } else {
        v
    }
}

/// The last step: the approval message fades after a while.
pub open spec fn tick_approved(v: AuthorizationView, now: u64) -> AuthorizationView {
    if v.state == AuthorizationState::Approved && v.approved_since is Some && elapsed(now, v.approved_since->0)
        >= approved_message_ms() && v.message is Some {
        AuthorizationView { message: None, approved_since: None, ..v }
    } else {
        v
    }
}

/// The authorization after a tick at `now`: the four steps in order.
pub open spec fn spec_tick(v: AuthorizationView, now: u64) -> AuthorizationView {
    tick_approved(tick_hint(tick_spinner(tick_connecting(v, now), now), now), now)
}

/// A status signal from the host, as text: `beach:status:<kind>` with an
/// optional detail after a space.
pub enum StatusSignal {
    Pending(Seq<char>),
    Granted(Seq<char>),
    Denied(Seq<char>),
    Unknown,
}

/// The index of the first space in `s`, if any.
pub open spec fn first_space(s: Seq<char>) -> Option<int> {
    if exists|j: int| 0 <= j < s.len() && s[j] == ' ' {
        Some(choose|j: int| 0 <= j < s.len() && s[j] == ' ' && forall|k: int| 0 <= k < j ==> s[k] != ' ')
    } else {
        None
    }
}

/// The signal a text carries, if it is one: after trimming it starts with
/// `beach:status:`; the kind runs to the first space, the detail (trimmed)
/// is the rest.
pub open spec fn spec_parse_signal(text: Seq<char>) -> Option<StatusSignal> {
    let t = spec_trim(text);
    if t.len() >= 13 && t.take(13) == "beach:status:"@ {
        let rest = t.skip(13);
        let (kind, detail) = match first_space(rest) {
            Some(j) => (rest.take(j), spec_trim(rest.skip(j + 1))),
            None => (rest, Seq::<char>::empty()),
        };
        Some(
            if kind == "approval_pending"@ {
                StatusSignal::Pending(detail)
            } else if kind == "approval_granted"@ {
                StatusSignal::Granted(detail)
            } else if kind == "approval_denied"@ {
                StatusSignal::Denied(detail)
            } else {
                StatusSignal::Unknown
            },
        )
    } else {
        None
    }
}

/// A detail, or `default` when it is empty.
pub open spec fn detail_or(detail: Seq<char>, default: Seq<char>) -> Seq<char> {
    if detail.len() == 0 {
        default
    } else {
        detail
    }
}

/// The frames of the spinner.
pub open spec fn spinner_frame(i: usize) -> Seq<char> {
    if i % 4 == 0 {
        "-"@
    } else if i % 4 == 1 {
        "\\"@
    } else if i % 4 == 2 {
        "|"@
    } else {
        "/"@
    }
}

/// The text of the connection indicator, before trimming.
pub open spec fn spec_indicator_text(v: AuthorizationView) -> Seq<char> {
    match v.state {
        AuthorizationState::Connecting => "🔌 connecting "@ + spinner_frame(v.spinner_index),
        AuthorizationState::Waiting => "🕑 "@ + or_default(v.message, wait_message()) + " "@ + spinner_frame(
            v.spinner_index,
        ),
        AuthorizationState::Approved => "✅ "@ + or_default(v.message, "connected"@),
        AuthorizationState::Denied => "⛔ "@ + or_default(v.message, denied_message()),
    }
}

/// The colour of the connection indicator, as a packed colour field: yellow
/// while connecting or waiting, green once approved, red when denied.
pub open spec fn spec_indicator_color(state: AuthorizationState) -> u32 {
    match state {
        AuthorizationState::Connecting | AuthorizationState::Waiting => 0x0100_0003,
        AuthorizationState::Approved => 0x0100_0002,
        AuthorizationState::Denied => 0x0100_0001,
    }
}

/// A status signal from the host as read from its text.
#[derive(Clone, Debug)]
pub enum ParsedSignal {
    Pending(String),
    Granted(String),
    Denied(String),
    Unknown,
}

/// The content of a parsed signal.
pub open spec fn signal_view(p: ParsedSignal) -> StatusSignal {
    match p {
        ParsedSignal::Pending(d) => StatusSignal::Pending(d@),
        ParsedSignal::Granted(d) => StatusSignal::Granted(d@),
        ParsedSignal::Denied(d) => StatusSignal::Denied(d@),
        ParsedSignal::Unknown => StatusSignal::Unknown,
    }
}

fn index_of_space(s: &Vec<char>) -> (res: Option<usize>)
    ensures
        match res {
            Some(j) => j < s@.len() && first_space(s@) == Some(j as int),
            None => first_space(s@) is None,
        },
{
    let mut j: usize = 0;
    while j < s.len()
        invariant
            j <= s@.len(),
            forall|k: int| 0 <= k < j ==> s@[k] != ' ',
        decreases s@.len() - j,
    {
        if s[j] == ' ' {
            proof {
                let c = choose|c: int| 0 <= c < s@.len() && s@[c] == ' ' && forall|k: int| 0 <= k < c ==> s@[k] != ' ';
                assert(0 <= j < s@.len() && s@[j as int] == ' ' && forall|k: int| 0 <= k < j ==> s@[k] != ' ');
                if c < j {
                    assert(s@[c] != ' ');
                }
                if c > j {
                    assert(s@[j as int] != ' ');
                }
            }
            return Some(j);
        }
        j = j + 1;
    }
    None
}

/// The signal a text carries, if it is one (see `spec_parse_signal`).
pub fn parse_signal(text: &str) -> (res: Option<ParsedSignal>)
    ensures
        match res {
            Some(p) => spec_parse_signal(text@) == Some(signal_view(p)),
            None => spec_parse_signal(text@) is None,
        },
{
    let t = str_trim(text);
    let chars = str_chars(t);
    let prefix = str_chars("beach:status:");
    proof {
        reveal_strlit("beach:status:");
    }
    if !starts_with(&chars, &prefix) {
        proof {
            if chars@.len() >= 13 && chars@.take(13) == "beach:status:"@ {
                assert(chars@.subrange(0, 13) =~= chars@.take(13));
            }
        }
        return None;
    }
    proof {
        assert(chars@.subrange(0, 13) =~= chars@.take(13));
    }
    let mut rest: Vec<char> = Vec::new();
    let mut i: usize = 13;
    while i < chars.len()
        invariant
            13 <= i <= chars@.len(),
            rest@ == chars@.subrange(13, i as int),
        decreases chars@.len() - i,
    {
        rest.push(chars[i]);
        proof {
            assert(chars@.subrange(13, i + 1) =~= chars@.subrange(13, i as int).push(chars@[i as int]));
        }
        i = i + 1;
    }
    proof {
        assert(rest@ =~= chars@.skip(13));
    }
    let (kind, detail): (Vec<char>, String) = match index_of_space(&rest) {
        Some(j) => {
            let mut k: Vec<char> = Vec::new();
            let mut d: Vec<char> = Vec::new();
            let mut m: usize = 0;
            while m < rest.len()
                invariant
                    j < rest@.len(),
                    m <= rest@.len(),
                    k@ == rest@.take(if m <= j { m as int } else { j as int }),
                    d@ == rest@.subrange(j + 1, if m <= j + 1 { j + 1 } else { m as int }),
                decreases rest@.len() - m,
            {
                if m < j {
                    k.push(rest[m]);
                    proof {
                        assert(rest@.take(m + 1) =~= rest@.take(m as int).push(rest@[m as int]));
                    }
                } else if m > j {
                    d.push(rest[m]);
                    proof {
                        assert(rest@.subrange(j + 1, m + 1) =~= rest@.subrange(j + 1, m as int).push(rest@[m as int]));
                    }
                } else {
                    proof {
                        assert(rest@.subrange(j + 1, j + 1) =~= Seq::<char>::empty());
                    }
                }
                m = m + 1;
            }
            proof {
                assert(d@ =~= rest@.skip(j + 1));
                assert(k@ =~= rest@.take(j as int));
            }
            let tail = string_from_chars(d);
            (k, String::from_str(str_trim(tail.as_str())))
        },
        None => {
            proof {
                reveal_strlit("");
            }
            (rest, String::from_str(""))
        },
    };
    proof {
        let r = spec_trim(text@).skip(13);
        assert(r == rest@);
        match first_space(r) {
            Some(j) => {
                assert(kind@ == r.take(j));
                assert(detail@ == spec_trim(r.skip(j + 1)));
            },
            None => {
                assert(kind@ == r);
                assert(detail@ == Seq::<char>::empty());
            },
        }
    }
    let kind_text = string_from_chars(kind);
    let parsed = if str_eq(kind_text.as_str(), "approval_pending") {
        ParsedSignal::Pending(detail)
    } else if str_eq(kind_text.as_str(), "approval_granted") {
        ParsedSignal::Granted(detail)
    } else if str_eq(kind_text.as_str(), "approval_denied") {
        ParsedSignal::Denied(detail)
    } else {
        ParsedSignal::Unknown
    };
    Some(parsed)
}

impl Authorization {
    /// The authorization of a client that starts connecting at `now`.
    pub fn new(now: u64) -> (res: Self)
        ensures
            auth_wf(res@),
            res@ == (AuthorizationView {
                state: AuthorizationState::Connecting,
                message: None,
                pending_hint: false,
                hint_level: 0,
                spinner_index: 0,
                wait_started: None,
                last_tick: now,
                approved_since: None,
                shutdown_at: None,
                connect_started_at: now,
            }),
    {
        Authorization {
            state: AuthorizationState::Connecting,
            message: None,
            pending_hint: false,
            hint_level: 0,
            spinner_index: 0,
            wait_started: None,
            last_tick: now,
            approved_since: None,
            shutdown_at: None,
            connect_started_at: now,
        }
    }

    /// Where the join stands.
    pub fn state(&self) -> (res: AuthorizationState)
        ensures
            res == self@.state,
    {
        self.state
    }

    /// The message shown with the state.
    pub fn message(&self) -> (res: Option<String>)
        ensures
            opt_view(res) == self@.message,
    {
        self.message.clone()
    }

    /// Moves to `state` with `message` at `now` (see `spec_set_state`);
    /// returns whether anything changed, so the status must be redrawn.
    pub fn set_state(&mut self, state: AuthorizationState, message: Option<String>, now: u64) -> (changed: bool)
        requires
            auth_wf(old(self)@),
            now + denied_exit_delay_ms() <= u64::MAX,
        ensures
            auth_wf(final(self)@),
            final(self)@ == spec_set_state(old(self)@, state, opt_view(message), now),
            changed == !(old(self)@.state == state && old(self)@.message == opt_view(message)),
    {
        let same_message = match (&self.message, &message) {
            (Some(a), Some(b)) => str_eq(a.as_str(), b.as_str()),
            (None, None) => true,
            _ => false,
        };
        if self.state == state && same_message {
            return false;
        }
        self.state = state;
        self.hint_level = 0;
        match state {
            AuthorizationState::Waiting => {
                self.message = Some(
                    match message {
                        Some(m) => m,
                        None => String::from_str("Waiting for host approval..."),
                    },
                );
                if self.wait_started.is_none() {
                    self.wait_started = Some(now);
                }
                self.last_tick = now;
                self.spinner_index = 0;
                self.approved_since = None;
                self.shutdown_at = None;
            },
            AuthorizationState::Approved => {
                self.pending_hint = false;
                self.message = Some(
                    match message {
                        Some(m) => m,
                        None => String::from_str("Approved - syncing..."),
                    },
                );
                self.wait_started = None;
                self.last_tick = now;
                self.spinner_index = 0;
                self.approved_since = Some(now);
                self.shutdown_at = None;
            },
            AuthorizationState::Denied => {
                self.pending_hint = false;
                self.message = Some(
                    match message {
                        Some(m) => m,
                        None => String::from_str("Join request was declined by host."),
                    },
                );
                self.wait_started = None;
                self.approved_since = None;
                self.shutdown_at = Some(now + 1200);
            },
            AuthorizationState::Connecting => {
                self.pending_hint = false;
                self.message = message;
                self.wait_started = None;
                self.approved_since = None;
                self.shutdown_at = None;
                self.last_tick = now;
                self.spinner_index = 0;
            },
        }
        true
    }

    /// Lets time pass up to `now` (see `spec_tick`); returns whether the
    /// status must be redrawn.
    pub fn tick(&mut self, now: u64) -> (refresh: bool)
        requires
            auth_wf(old(self)@),
            now + denied_exit_delay_ms() <= u64::MAX,
        ensures
            auth_wf(final(self)@),
            final(self)@ == spec_tick(old(self)@, now),
    {
        let mut refresh = false;
        if self.state == AuthorizationState::Connecting && now.saturating_sub(self.connect_started_at) >= 750 {
            let message = if self.pending_hint {
                String::from_str("Connected - waiting for host approval...")
            } else {
                String::from_str("Connected - syncing remote session...")
            };
            if self.set_state(AuthorizationState::Waiting, Some(message), now) {
                refresh = true;
            }
        }
        if self.state == AuthorizationState::Waiting && now.saturating_sub(self.last_tick) >= 120 {
            self.spinner_index = (self.spinner_index + 1) % 4;
            self.last_tick = now;
            refresh = true;
        }
        if self.state == AuthorizationState::Waiting {
            if let Some(started) = self.wait_started {
                let waited = now.saturating_sub(started);
                let level: u8 = if waited >= 30_000 {
                    2
                } else if waited >= 10_000 {
                    1
                } else {
                    0
                };
                if level != self.hint_level {
                    self.hint_level = level;
                    let plain = match &self.message {
                        Some(m) => str_eq(m.as_str(), "Waiting for host approval...") || str_eq(
                            m.as_str(),
                            "Connected - waiting for host approval...",
                        ),
                        None => true,
                    };
                    proof {
                        reveal_strlit("Waiting for host approval...");
                        reveal_strlit("Connected - waiting for host approval...");
                    }
                    if plain {
                        let replacement = if level == 2 {
                            String::from_str("Still waiting... ask the host to approve.")
                        } else if level == 1 {
                            String::from_str("Still waiting... hang tight.")
                        } else {
                            String::from_str("Waiting for host approval...")
                        };
                        self.message = Some(replacement);
                        refresh = true;
                    }
                }
            }
        }
        if self.state == AuthorizationState::Approved {
            if let Some(started) = self.approved_since {
                if now.saturating_sub(started) >= 1200 && self.message.is_some() {
                    self.message = None;
                    self.approved_since = None;
                    refresh = true;
                }
            }
        }
        refresh
    }

    /// A text from the host that may be a status signal: approval pending
    /// (ignored once subscribed) moves to waiting and notes the hint;
    /// granted and denied move to approval and denial; a detail, when given,
    /// is the message. Returns whether the text was a known signal and
    /// whether the status must be redrawn.
    pub fn handle_signal(&mut self, text: &str, subscribed: bool, now: u64) -> (res: (bool, bool))
        requires
            auth_wf(old(self)@),
            now + denied_exit_delay_ms() <= u64::MAX,
        ensures
            auth_wf(final(self)@),
            match spec_parse_signal(text@) {
                Some(StatusSignal::Pending(d)) => if subscribed {
                    res == (true, false) && final(self)@ == old(self)@
                } else {
                    let msg = detail_or(d, wait_message());
                    &&& res.0
                    &&& final(self)@ == spec_set_state(
                        AuthorizationView { pending_hint: true, ..old(self)@ },
                        AuthorizationState::Waiting,
                        Some(msg),
                        now,
                    )
                    &&& res.1 == !(old(self)@.state == AuthorizationState::Waiting && old(self)@.message == Some(msg))
                },
                Some(StatusSignal::Granted(d)) => {
                    let msg = detail_or(d, approved_message());
                    &&& res.0
                    &&& final(self)@ == spec_set_state(
                        AuthorizationView { pending_hint: false, ..old(self)@ },
                        AuthorizationState::Approved,
                        Some(msg),
                        now,
                    )
                    &&& res.1 == !(old(self)@.state == AuthorizationState::Approved && old(self)@.message == Some(msg))
                },
                Some(StatusSignal::Denied(d)) => {
                    let msg = detail_or(d, denied_message());
                    &&& res.0
                    &&& final(self)@ == spec_set_state(
                        AuthorizationView { pending_hint: false, ..old(self)@ },
                        AuthorizationState::Denied,
                        Some(msg),
                        now,
                    )
                    &&& res.1 == !(old(self)@.state == AuthorizationState::Denied && old(self)@.message == Some(msg))
                },
                _ => res == (false, false) && final(self)@ == old(self)@,
            },
    {
        match parse_signal(text) {
            Some(ParsedSignal::Pending(detail)) => {
                if subscribed {
                    return (true, false);
                }
                let message = if detail.as_str().is_empty() {
                    String::from_str("Waiting for host approval...")
                } else {
                    detail
                };
                self.pending_hint = true;
                let changed = self.set_state(AuthorizationState::Waiting, Some(message), now);
                (true, changed)
            },
            Some(ParsedSignal::Granted(detail)) => {
                let message = if detail.as_str().is_empty() {
                    String::from_str("Approved - syncing...")
                } else {
                    detail
                };
                self.pending_hint = false;
                let changed = self.set_state(AuthorizationState::Approved, Some(message), now);
                (true, changed)
            },
            Some(ParsedSignal::Denied(detail)) => {
                let message = if detail.as_str().is_empty() {
                    String::from_str("Join request was declined by host.")
                } else {
                    detail
                };
                self.pending_hint = false;
                let changed = self.set_state(AuthorizationState::Denied, Some(message), now);
                (true, changed)
            },
            _ => (false, false),
        }
    }

    /// Whether a denied join has waited long enough to exit.
    pub fn should_exit(&self, now: u64) -> (res: bool)
        ensures
            res == (self@.state == AuthorizationState::Denied && (self@.shutdown_at matches Some(t) && now >= t)),
    {
        match self.state {
            AuthorizationState::Denied => match self.shutdown_at {
                Some(deadline) => now >= deadline,
                None => false,
            },
            _ => false,
        }
    }

    /// The connection indicator: its text (trimmed) and its style, bold in
    /// the state's colour.
    pub fn connection_indicator(&self) -> (res: (String, Style))
        ensures
            res.0@ == spec_trim(spec_indicator_text(self@)),
            res.1 == (Style { fg: spec_indicator_color(self@.state), bg: 0, attrs: 1 }),
    {
        let spinner = match self.spinner_index % 4 {
            0 => "-",
            1 => "\\",
            2 => "|",
            _ => "/",
        };
        let mut text = String::from_str("");
        match self.state {
            AuthorizationState::Connecting => {
                text.append("🔌 connecting ");
                text.append(spinner);
            },
            AuthorizationState::Waiting => {
                text.append("🕑 ");
                match &self.message {
                    Some(m) => text.append(m.as_str()),
                    None => text.append("Waiting for host approval..."),
                }
                text.append(" ");
                text.append(spinner);
            },
            AuthorizationState::Approved => {
                text.append("✅ ");
                match &self.message {
                    Some(m) => text.append(m.as_str()),
                    None => text.append("connected"),
                }
            },
            AuthorizationState::Denied => {
                text.append("⛔ ");
                match &self.message {
                    Some(m) => text.append(m.as_str()),
                    None => text.append("Join request was declined by host."),
                }
            },
        }
        proof {
            reveal_strlit("");
            assert(text@ =~= spec_indicator_text(self@));
        }
        let fg: u32 = match self.state {
            AuthorizationState::Connecting | AuthorizationState::Waiting => 0x0100_0003,
            AuthorizationState::Approved => 0x0100_0002,
            AuthorizationState::Denied => 0x0100_0001,
        };
        (String::from_str(str_trim(text.as_str())), Style { fg, bg: 0, attrs: 1 })
    }
}

/// Time alone moves a join only from connecting to waiting: a tick keeps
/// every other state as it is.
pub proof fn law_time_moves_only_connecting(v: AuthorizationView, now: u64)
    ensures
        spec_tick(v, now).state == (if v.state == AuthorizationState::Connecting && elapsed(now, v.connect_started_at)
            >= fallback_wait_ms() {
            AuthorizationState::Waiting
        } else {
            v.state
        }),
{
}

/// Moving to a denial always schedules the exit a fixed delay later and
/// shows a message.
pub proof fn law_denial_schedules_exit(v: AuthorizationView, message: Option<Seq<char>>, now: u64)
    requires
        v.state != AuthorizationState::Denied,
        now + denied_exit_delay_ms() <= u64::MAX,
    ensures
        spec_set_state(v, AuthorizationState::Denied, message, now).shutdown_at == Some((now + denied_exit_delay_ms()) as u64),
        spec_set_state(v, AuthorizationState::Denied, message, now).message is Some,
{
}

} // verus!

//! Joining a session: reading the session id (and the server it lives on)
//! out of what the user typed, and the passcode.

use vstd::prelude::*;
use vstd::string::StringExecFns;

use crate::text::{spec_trim, str_chars, str_eq, str_trim, string_from_chars};

verus! {

/// What `Uuid::parse_str` of uuid gives for `text`: the 128-bit value of
/// the id it reads, or none when `text` is no id it accepts.
pub uninterp spec fn spec_parse_uuid(text: Seq<char>) -> Option<u128>;

/// `Uuid::parse_str` of uuid, the id it reads taken as its 128-bit value
/// (`Uuid::as_u128`); `None` when it refuses `text`. The result is given
/// the name `spec_parse_uuid`.
#[verifier::external_body]
fn parse_uuid(text: &str) -> (res: Option<u128>)
    ensures
        res == spec_parse_uuid(text@),
{
    match uuid::Uuid::parse_str(text) {
        Ok(id) => Some(id.as_u128()),
        Err(_) => None,
    }
}

/// A lower-case hexadecimal digit.
pub open spec fn hex_digit(d: int) -> char {
    if d < 10 {
        (d + 48) as char
    } else {
        (d + 87) as char
    }
}

/// The `i`-th of the 32 hexadecimal digits of `v`, most significant first.
pub open spec fn uuid_nibble(v: u128, i: int) -> int {
    (v as int / vstd::arithmetic::power2::pow2((4 * (31 - i)) as nat) as int) % 16
}

/// Which digit stands at character `k` of the hyphenated form.
pub open spec fn uuid_digit_index(k: int) -> int {
    if k < 8 {
        k
    } else if k < 13 {
        k - 1
    } else if k < 18 {
        k - 2
    } else if k < 23 {
        k - 3
    } else {
        k - 4
    }
}

/// The hyphenated lower-case form of the id with value `v`, such as
/// `67e55044-10b1-426f-9247-bb680e5fe0c8`: 32 hexadecimal digits, most
/// significant first, in groups of 8, 4, 4, 4 and 12.
pub open spec fn spec_uuid_text(v: u128) -> Seq<char> {
    Seq::new(
        36,
        |k: int|
            if k == 8 || k == 13 || k == 18 || k == 23 {
                '-'
            } else {
                hex_digit(uuid_nibble(v, uuid_digit_index(k)))
            },
    )
}

/// `Display` of uuid's `Uuid` for the id with value `value`
/// (`Uuid::from_u128`): its hyphenated lower-case form.
#[verifier::external_body]
fn uuid_text(value: u128) -> (res: String)
    ensures
        res@ == spec_uuid_text(value),
{
    uuid::Uuid::from_u128(value).to_string()
}

/// What `Url::parse` of url and then `Url::path_segments` give for `text`:
/// none when `text` is no URL; otherwise the path's segments (as the URL
/// writes them, percent-encoded), or none for a URL that cannot be a base.
pub uninterp spec fn spec_url_path_segments(text: Seq<char>) -> Option<Option<Seq<Seq<char>>>>;

/// `Url::parse` of url, then `Url::path_segments` collected; the result is
/// given the name `spec_url_path_segments`.
#[verifier::external_body]
fn url_path_segments(text: &str) -> (res: Option<Option<Vec<String>>>)
    ensures
        match res {
            None => spec_url_path_segments(text@) is None,
            Some(None) => spec_url_path_segments(text@) == Some(None::<Seq<Seq<char>>>),
            Some(Some(v)) => spec_url_path_segments(text@) == Some(Some(v@.map_values(|s: String| s@))),
        },
{
    match url::Url::parse(text) {
        Ok(url) => Some(url.path_segments().map(|segments| segments.map(|s| s.to_string()).collect())),
        Err(_) => None,
    }
}

/// What url gives for the URL `text` with its query and fragment removed
/// (`Url::set_query(None)`, `Url::set_fragment(None)`) and its path set to
/// `path` (`Url::set_path`), written out (`Display`).
pub uninterp spec fn spec_url_with_path(text: Seq<char>, path: Seq<char>) -> Seq<char>;

/// `Url::parse` of url on `text`, then `set_query(None)`,
/// `set_fragment(None)` and `set_path(path)`, written out; the result is
/// given the name `spec_url_with_path`.
#[verifier::external_body]
fn url_with_path(text: &str, path: &str) -> (res: String)
    requires
        spec_url_path_segments(text@) is Some,
    ensures
        res@ == spec_url_with_path(text@, path@),
{
    match url::Url::parse(text) {
        Ok(mut url) => {
            url.set_query(None);
            url.set_fragment(None);
            url.set_path(path);
            url.to_string()
        },
        Err(_) => String::new(),
    }
}

/// The segments that are not empty, in order.
pub open spec fn nonempty_segments(segments: Seq<Seq<char>>) -> Seq<Seq<char>>
    decreases segments.len(),
{
    if segments.len() == 0 {
        Seq::empty()
    } else {
        let rest = nonempty_segments(segments.drop_last());
        if segments.last().len() > 0 {
            rest.push(segments.last())
        } else {
            rest
        }
    }
}

/// The segments without a trailing `join`.
pub open spec fn without_join(segments: Seq<Seq<char>>) -> Seq<Seq<char>> {
    if segments.len() > 0 && segments.last() == "join"@ {
        segments.drop_last()
    } else {
        segments
    }
}

/// The session id a URL path names: its last non-empty segment (before a
/// trailing `join`), when that is an id.
pub open spec fn spec_session_id(segments: Seq<Seq<char>>) -> Option<Seq<char>> {
    let s = without_join(nonempty_segments(segments));
    if s.len() == 0 {
        None
    } else if spec_parse_uuid(s.last()) is Some {
        Some(s.last())
    } else {
        None
    }
}

/// The texts joined as `/a/b/c`.
pub open spec fn slash_path(segments: Seq<Seq<char>>) -> Seq<char>
    decreases segments.len(),
{
    if segments.len() == 0 {
        Seq::empty()
    } else {
        slash_path(segments.drop_last()) + "/"@ + segments.last()
    }
}

/// The path of the server a session URL points at: the non-empty segments
/// without a trailing `join`, the session id, and a `sessions` before it,
/// as a directory path (`/` when nothing is left).
pub open spec fn spec_base_path(segments: Seq<Seq<char>>) -> Seq<char> {
    let s1 = without_join(nonempty_segments(segments));
    let s2 = if s1.len() > 0 {
        s1.drop_last()
    } else {
        s1
    };
    let s3 = if s2.len() > 0 && s2.last() == "sessions"@ {
        s2.drop_last()
    } else {
        s2
    };
    if s3.len() == 0 {
        "/"@
    } else {
        slash_path(s3) + "/"@
    }
}

/// A session target that names no session.
#[derive(Debug, Clone)]
pub struct InvalidSessionTarget {
    pub target: String,
}

/// What a session target names: an id alone (in its hyphenated lower-case
/// form, no server), or a URL whose path ends in an id (optionally followed
/// by `join`), with the server that URL points at; none otherwise.
pub open spec fn spec_interpret_session_target(target: Seq<char>) -> Option<(Seq<char>, Option<Seq<char>>)> {
    match spec_parse_uuid(target) {
        Some(v) => Some((spec_uuid_text(v), None)),
        None => match spec_url_path_segments(target) {
            None => None,
            Some(opt) => {
                let segments = match opt {
                    Some(s) => s,
                    None => Seq::empty(),
                };
                match spec_session_id(segments) {
                    None => None,
                    Some(id) => Some((id, Some(spec_url_with_path(target, spec_base_path(segments))))),
                }
            },
        },
    }
}

fn nonempty_strings(segments: &Vec<String>) -> (res: Vec<String>)
    ensures
        res@.map_values(|s: String| s@) == nonempty_segments(segments@.map_values(|s: String| s@)),
{
    let ghost views = segments@.map_values(|s: String| s@);
    let mut out: Vec<String> = Vec::new();
    let mut i: usize = 0;
    proof {
        assert(views.take(0) =~= Seq::<Seq<char>>::empty());
        assert(out@.map_values(|s: String| s@) =~= Seq::<Seq<char>>::empty());
    }
    while i < segments.len()
        invariant
            i <= segments@.len(),
            views == segments@.map_values(|s: String| s@),
            out@.map_values(|s: String| s@) == nonempty_segments(views.take(i as int)),
        decreases segments@.len() - i,
    {
        proof {
            assert(views.take(i + 1).drop_last() =~= views.take(i as int));
            assert(views.take(i + 1).last() == segments@[i as int]@);
        }
        let ghost before = out@.map_values(|s: String| s@);
        if !segments[i].as_str().is_empty() {
            out.push(segments[i].clone());
            proof {
                assert(out@.map_values(|s: String| s@) =~= before.push(segments@[i as int]@));
            }
        }
        i = i + 1;
    }
    proof {
        assert(views.take(segments@.len() as int) =~= views);
    }
    out
}

fn drop_trailing(segments: &mut Vec<String>, word: &str)
    ensures
        final(segments)@.map_values(|s: String| s@) == (if old(segments)@.len() > 0 && old(segments)@.last()@
            == word@ {
            old(segments)@.map_values(|s: String| s@).drop_last()
        } else {
            old(segments)@.map_values(|s: String| s@)
        }),
{
    let n = segments.len();
    if n > 0 && str_eq(segments[n - 1].as_str(), word) {
        let ghost before = segments@;
        segments.pop();
        proof {
            assert(segments@.map_values(|s: String| s@) =~= before.map_values(|s: String| s@).drop_last());
        }
    }
}

fn session_id_from_segments(segments: &Vec<String>) -> (res: Option<String>)
    ensures
        match res {
            Some(id) => spec_session_id(segments@.map_values(|s: String| s@)) == Some(id@),
            None => spec_session_id(segments@.map_values(|s: String| s@)) is None,
        },
{
    let mut kept = nonempty_strings(segments);
    drop_trailing(&mut kept, "join");
    let n = kept.len();
    if n == 0 {
        return None;
    }
    let candidate = kept[n - 1].clone();
    proof {
        assert(kept@.map_values(|s: String| s@).last() == kept@[n - 1]@);
    }
    match parse_uuid(candidate.as_str()) {
        Some(_) => Some(candidate),
        None => None,
    }
}

fn base_path_from_segments(segments: &Vec<String>) -> (res: String)
    ensures
        res@ == spec_base_path(segments@.map_values(|s: String| s@)),
{
    let mut kept = nonempty_strings(segments);
    drop_trailing(&mut kept, "join");
    let ghost s1 = kept@.map_values(|s: String| s@);
    if kept.len() > 0 {
        let ghost before = kept@;
        kept.pop();
        proof {
            assert(kept@.map_values(|s: String| s@) =~= before.map_values(|s: String| s@).drop_last());
        }
    }
    drop_trailing(&mut kept, "sessions");
    let ghost s3 = kept@.map_values(|s: String| s@);
    let mut path = String::from_str("");
    let mut i: usize = 0;
    proof {
        reveal_strlit("");
        assert(s3.take(0) =~= Seq::<Seq<char>>::empty());
    }
    while i < kept.len()
        invariant
            i <= kept@.len(),
            s3 == kept@.map_values(|s: String| s@),
            path@ == slash_path(s3.take(i as int)),
        decreases kept@.len() - i,
    {
        proof {
            assert(s3.take(i + 1).drop_last() =~= s3.take(i as int));
            assert(s3.take(i + 1).last() == kept@[i as int]@);
        }
        path.append("/");
        path.append(kept[i].as_str());
        i = i + 1;
    }
    proof {
        assert(s3.take(kept@.len() as int) =~= s3);
    }
    if kept.len() == 0 {
        String::from_str("/")
    } else {
        path.append("/");
        path
    }
}

/// What a session target names (see `spec_interpret_session_target`):
/// the session id and, for a URL, the server it points at; a target that
/// names no session is refused.
pub fn interpret_session_target(target: &str) -> (res: Result<(String, Option<String>), InvalidSessionTarget>)
    ensures
        match spec_interpret_session_target(target@) {
            Some((id, base)) => res matches Ok((i, b)) && i@ == id && match b {
                Some(s) => base == Some(s@),
                None => base is None,
            },
            None => res matches Err(e) && e.target@ == target@,
        },
{
    if let Some(value) = parse_uuid(target) {
        return Ok((uuid_text(value), None));
    }
    let segments = match url_path_segments(target) {
        None => return Err(InvalidSessionTarget { target: String::from_str(target) }),
        Some(Some(segments)) => segments,
        Some(None) => {
            let empty: Vec<String> = Vec::new();
            proof {
                assert(empty@.map_values(|s: String| s@) =~= Seq::<Seq<char>>::empty());
            }
            empty
        },
    };
    let session_id = match session_id_from_segments(&segments) {
        Some(id) => id,
        None => return Err(InvalidSessionTarget { target: String::from_str(target) }),
    };
    let path = base_path_from_segments(&segments);
    let base = url_with_path(target, path.as_str());
    Ok((session_id, Some(base)))
}

/// Whether every character is an ASCII letter or digit.
pub open spec fn all_ascii_alphanumeric(s: Seq<char>) -> bool {
    forall|i: int|
        0 <= i < s.len() ==> {
            let c = #[trigger] s[i];
            ('0' <= c && c <= '9') || ('a' <= c && c <= 'z') || ('A' <= c && c <= 'Z')
        }
}

/// The upper-case ASCII form of a text.
pub open spec fn ascii_upper_text(s: Seq<char>) -> Seq<char> {
    s.map_values(|c: char| crate::client::terminal::keys::upper(c))
}

fn to_ascii_upper(chars: &Vec<char>) -> (res: Vec<char>)
    ensures
        res@ == ascii_upper_text(chars@),
{
    let mut out: Vec<char> = Vec::new();
    let mut i: usize = 0;
    while i < chars.len()
        invariant
            i <= chars@.len(),
            out@ == ascii_upper_text(chars@.take(i as int)),
        decreases chars@.len() - i,
    {
        let c = chars[i];
        let u = if 'a' <= c && c <= 'z' {
            crate::text::char_from_ascii(c as u32 - 32)
        } else {
            c
        };
        out.push(u);
        proof {
            assert(chars@.take(i + 1) =~= chars@.take(i as int).push(c));
            assert(out@ =~= ascii_upper_text(chars@.take(i + 1)));
        }
        i = i + 1;
    }
    proof {
        assert(chars@.take(chars@.len() as int) =~= chars@);
    }
    out
}

/// The passcode a typed line gives: the line trimmed, when that is six
/// ASCII letters or digits, in upper case; none otherwise.
pub fn passcode_from_input(line: &str) -> (res: Option<String>)
    ensures
        ({
            let t = spec_trim(line@);
            if t.len() == 6 && all_ascii_alphanumeric(t) {
                res matches Some(p) && p@ == ascii_upper_text(t)
            } else {
                res is None
            }
        }),
{
    let trimmed = str_trim(line);
    let chars = str_chars(trimmed);
    if chars.len() != 6 {
        return None;
    }
    let mut i: usize = 0;
    while i < 6
        invariant
            chars@.len() == 6,
            chars@ == spec_trim(line@),
            i <= 6,
            all_ascii_alphanumeric(chars@.take(i as int)),
        decreases 6 - i,
    {
        let c = chars[i];
        if !(('0' <= c && c <= '9') || ('a' <= c && c <= 'z') || ('A' <= c && c <= 'Z')) {
            proof {
                if all_ascii_alphanumeric(chars@) {
                    let k = i as int;
                    assert(chars@[k] == c);
                    assert(false);
                }
            }
            return None;
        }
        proof {
            assert(chars@.take(i + 1) =~= chars@.take(i as int).push(c));
        }
        i = i + 1;
    }
    proof {
        assert(chars@.take(6) =~= chars@);
    }
    Some(string_from_chars(to_ascii_upper(&chars)))
}

/// A passcode as it is sent: trimmed and in upper case.
pub fn normalize_passcode(passcode: &str) -> (res: String)
    ensures
        res@ == ascii_upper_text(spec_trim(passcode@)),
{
    let chars = str_chars(str_trim(passcode));
    string_from_chars(to_ascii_upper(&chars))
}


/// The kinds of transport a session offers (the offer's details are not
/// needed here).
#[derive(Clone, Copy, Debug, PartialEq, Eq, Structural)]
pub enum TransportOfferKind {
    WebRtc,
    WebSocket,
    WebSocketFallback,
    Ipc,
}

/// How an offered transport is named to the user.
pub open spec fn spec_offer_label(offer: TransportOfferKind) -> Seq<char> {
    match offer {
        TransportOfferKind::WebRtc => "WebRTC"@,
        TransportOfferKind::WebSocket => "WebSocket"@,
        TransportOfferKind::WebSocketFallback => "WebSocket (Fallback)"@,
        TransportOfferKind::Ipc => "IPC"@,
    }
}

/// How an offered transport is named to the user.
pub fn offer_label(offer: TransportOfferKind) -> (res: &'static str)
    ensures
        res@ == spec_offer_label(offer),
{
    match offer {
        TransportOfferKind::WebRtc => "WebRTC",
        TransportOfferKind::WebSocket => "WebSocket",
        TransportOfferKind::WebSocketFallback => "WebSocket (Fallback)",
        TransportOfferKind::Ipc => "IPC",
    }
}

/// The labels of the offers, each kept once, in the order first offered.
pub open spec fn distinct_labels(offers: Seq<TransportOfferKind>) -> Seq<Seq<char>>
    decreases offers.len(),
{
    if offers.len() == 0 {
        Seq::empty()
    } else {
        let rest = distinct_labels(offers.drop_last());
        let label = spec_offer_label(offers.last());
        if rest.contains(label) {
            rest
        } else {
            rest.push(label)
        }
    }
}

/// The offers of a session for its banner: each distinct label once, in
/// the order first offered, separated by `, `.
pub open spec fn spec_summarize_offers(offers: Seq<TransportOfferKind>) -> Seq<char> {
    crate::client::terminal::keys::spec_join(distinct_labels(offers), ", "@)
}

/// The offers of a session for its banner (see `spec_summarize_offers`).
pub fn summarize_offers(offers: &Vec<TransportOfferKind>) -> (res: String)
    ensures
        res@ == spec_summarize_offers(offers@),
{
    let mut labels: Vec<&'static str> = Vec::new();
    let mut i: usize = 0;
    proof {
        assert(offers@.take(0) =~= Seq::<TransportOfferKind>::empty());
        assert(labels@.map_values(|l: &str| l@) =~= Seq::<Seq<char>>::empty());
    }
    while i < offers.len()
        invariant
            i <= offers@.len(),
            labels@.map_values(|l: &str| l@) == distinct_labels(offers@.take(i as int)),
        decreases offers@.len() - i,
    {
        proof {
            assert(offers@.take(i + 1).drop_last() =~= offers@.take(i as int));
            assert(offers@.take(i + 1).last() == offers@[i as int]);
        }
        let label = offer_label(offers[i]);
        let ghost views = labels@.map_values(|l: &str| l@);
        let mut seen = false;
        let mut j: usize = 0;
        while j < labels.len()
            invariant
                j <= labels@.len(),
                views == labels@.map_values(|l: &str| l@),
                seen == exists|k: int| 0 <= k < j && views[k] == label@,
            decreases labels@.len() - j,
        {
            let same = str_eq(labels[j], label);
            proof {
                assert(views[j as int] == labels@[j as int]@);
            }
            if same {
                seen = true;
            }
            proof {
                if !same {
                    assert forall|k: int| 0 <= k < j + 1 && views[k] == label@ implies 0 <= k < j && views[k]
                        == label@ by {
                        if k == j {
                            assert(views[k] != label@);
                        }
                    }
                }
            }
            j = j + 1;
        }
        proof {
            if seen {
                let k = choose|k: int| 0 <= k < labels@.len() && views[k] == label@;
                assert(views.contains(label@));
            } else {
                assert(!views.contains(label@));
            }
        }
        if !seen {
            labels.push(label);
            proof {
                assert(labels@.map_values(|l: &str| l@) =~= views.push(label@));
            }
        }
        i = i + 1;
    }
    proof {
        assert(offers@.take(offers@.len() as int) =~= offers@);
    }
    let ghost lv = labels@.map_values(|l: &str| l@);
    let mut out = String::from_str("");
    let mut k: usize = 0;
    proof {
        reveal_strlit("");
        assert(lv.take(0) =~= Seq::<Seq<char>>::empty());
    }
    while k < labels.len()
        invariant
            k <= labels@.len(),
            lv == labels@.map_values(|l: &str| l@),
            out@ == crate::client::terminal::keys::spec_join(lv.take(k as int), ", "@),
        decreases labels@.len() - k,
    {
        proof {
            assert(lv.take(k + 1).drop_last() =~= lv.take(k as int));
        }
        if k > 0 {
            out.append(", ");
        }
        out.append(labels[k]);
        proof {
            if k == 0 {
                assert(out@ =~= lv.take(1)[0]);
            }
        }
        k = k + 1;
    }
    proof {
        assert(lv.take(labels@.len() as int) =~= lv);
    }
    out
}
} // verus!

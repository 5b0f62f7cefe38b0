//! Copying the copy-mode selection to the clipboard: which text goes to the
//! clipboard, and what the client shows before and after the clipboard
//! took it, and what a paste from the clipboard sends.

use vstd::prelude::*;
use vstd::string::{StrSliceExecFns, StringExecFns};
use vstd::utf8::encode_utf8;

use super::scrollback::{spec_exit_copy_mode, spec_update_copy_mode_status, ClientView};
use crate::client::grid_renderer::text::spec_selection_text;
use crate::client::grid_renderer::{GridRenderer, RendererView};
use crate::text::{decimal, push_decimal, str_chars, string_from_chars};

verus! {

/// The number of line feeds in `t`.
pub open spec fn newline_count(t: Seq<char>) -> nat
    decreases t.len(),
{
    if t.len() == 0 {
        0
    } else {
        newline_count(t.drop_last()) + if t.last() == '\n' {
            1nat
        } else {
            0nat
        }
    }
}

proof fn lemma_newline_count_le(t: Seq<char>)
    ensures
        newline_count(t) <= t.len(),
    decreases t.len(),
{
    if t.len() > 0 {
        lemma_newline_count_le(t.drop_last());
    }
}

/// The number of lines `str::lines` of std splits `t` into: a final line
/// feed ends the last line rather than starting an empty one, and an empty
/// text has none.
pub open spec fn line_count(t: Seq<char>) -> nat {
    if t.len() == 0 {
        0
    } else if t.last() == '\n' {
        newline_count(t)
    } else {
        newline_count(t) + 1
    }
}

/// The status shown once `t` is on the clipboard: its lines when there are
/// several, else its characters.
pub open spec fn copy_message(t: Seq<char>) -> Seq<char> {
    if line_count(t) > 1 {
        "copied "@ + decimal(line_count(t)) + " lines to clipboard"@
    } else if t.len() == 1 {
        "copied 1 character to clipboard"@
    } else {
        "copied "@ + decimal(t.len()) + " characters to clipboard"@
    }
}

/// Appends the characters of `s` to `out`.
fn push_text(out: &mut Vec<char>, s: &str)
    ensures
        final(out)@ == old(out)@ + s@,
{
    let cs = str_chars(s);
    let mut i: usize = 0;
    while i < cs.len()
        invariant
            i <= cs@.len(),
            cs@ == s@,
            out@ == old(out)@ + cs@.take(i as int),
        decreases cs@.len() - i,
    {
        out.push(cs[i]);
        proof {
            assert(cs@.take(i + 1) =~= cs@.take(i as int).push(cs@[i as int]));
        }
        i = i + 1;
    }
    proof {
        assert(cs@.take(cs@.len() as int) =~= cs@);
    }
}

/// The status shown once `text` is on the clipboard (see `copy_message`).
pub fn copy_status_message(text: &str) -> (res: String)
    ensures
        res@ == copy_message(text@),
{
    let cs = str_chars(text);
    let mut newlines: usize = 0;
    let mut i: usize = 0;
    while i < cs.len()
        invariant
            i <= cs@.len(),
            newlines <= i,
            newlines == newline_count(cs@.take(i as int)),
        decreases cs@.len() - i,
    {
        proof {
            assert(cs@.take(i + 1).drop_last() =~= cs@.take(i as int));
        }
        if cs[i] == '\n' {
            newlines = newlines + 1;
        }
        i = i + 1;
    }
    proof {
        assert(cs@.take(cs@.len() as int) =~= cs@);
    }
    let n = cs.len();
    proof {
        if n > 0 {
            lemma_newline_count_le(cs@.drop_last());
        }
    }
    let lines: usize = if n == 0 {
        0
    } else if cs[n - 1] == '\n' {
        newlines
    } else {
        newlines + 1
    };
    let mut out: Vec<char> = Vec::new();
    if lines > 1 {
        push_text(&mut out, "copied ");
        push_decimal(&mut out, lines as u64);
        push_text(&mut out, " lines to clipboard");
    } else if n == 1 {
        push_text(&mut out, "copied 1 character to clipboard");
    } else {
        push_text(&mut out, "copied ");
        push_decimal(&mut out, n as u64);
        push_text(&mut out, " characters to clipboard");
    }
    proof {
        if lines > 1 {
            assert(out@ =~= copy_message(text@));
        } else if n == 1 {
            assert(out@ =~= copy_message(text@));
        } else {
            assert(out@ =~= copy_message(text@));
        }
    }
    string_from_chars(out)
}

/// A copy failed with `message`: copy mode is left first when asked, then
/// the message shows as an error.
pub open spec fn spec_copy_failed(c: ClientView, v: RendererView, message: Seq<char>, exit_after: bool, now: u64) -> (
    ClientView,
    RendererView,
) {
    let (c1, v1) = if exit_after {
        spec_exit_copy_mode(c, v, now)
    } else {
        (c, v)
    };
    (
        ClientView { force_render: true, ..c1 },
        RendererView {
            status_message: Some(message),
            status_highlight: None,
            status_is_error: true,
            needs_redraw: true,
            ..v1
        },
    )
}

/// Copying the selection: without an active selection in copy mode, or
/// when the renderer cannot give its text, the failure shows and nothing is
/// copied; otherwise the selected text is what goes to the clipboard and
/// nothing changes yet.
pub open spec fn spec_copy_selection(c: ClientView, v: RendererView, exit_after: bool, now: u64) -> (
    ClientView,
    RendererView,
    Option<Seq<char>>,
) {
    if !(c.copy_mode matches Some(st) && st.selection_active) {
        let (c1, v1) = spec_copy_failed(c, v, "copy-mode: no active selection"@, exit_after, now);
        (c1, v1, None)
    } else {
        match spec_selection_text(v) {
            Some(t) => (c, v, Some(t)),
            None => {
                let (c1, v1) = spec_copy_failed(c, v, "copy-mode: selection unavailable"@, exit_after, now);
                (c1, v1, None)
            },
        }
    }
}

/// After the clipboard took `text` (no `error`) or refused it: on success
/// copy mode is left with the copy message shown when asked, else the
/// copy-mode status line shows; a refusal shows as a failed copy.
pub open spec fn spec_copy_done(
    c: ClientView,
    v: RendererView,
    text: Seq<char>,
    error: Option<Seq<char>>,
    exit_after: bool,
    now: u64,
) -> (ClientView, RendererView) {
    match error {
        None => if exit_after {
            let (c1, v1) = spec_exit_copy_mode(c, v, now);
            (
                ClientView { force_render: true, ..c1 },
                RendererView {
                    status_message: Some(copy_message(text)),
                    status_highlight: None,
                    status_is_error: false,
                    needs_redraw: true,
                    ..v1
                },
            )
        } else {
            let (c1, v1) = spec_update_copy_mode_status(c, v);
            (ClientView { force_render: true, ..c1 }, v1)
        },
        Some(e) => spec_copy_failed(c, v, "copy failed: "@ + e, exit_after, now),
    }
}

/// The text of an optional string.
pub open spec fn opt_text(s: Option<String>) -> Option<Seq<char>> {
    match s {
        Some(t) => Some(t@),
        None => None,
    }
}

/// The error text of a clipboard outcome, if it failed.
pub open spec fn outcome_error(outcome: Result<(), String>) -> Option<Seq<char>> {
    match outcome {
        Ok(()) => None,
        Err(e) => Some(e@),
    }
}

/// A paste from the clipboard, which held `contents` (`None` when it could
/// not be read): an unreadable or empty clipboard shows a status and sends
/// nothing; otherwise its text is sent as UTF-8 input and nothing changes.
pub open spec fn spec_paste(c: ClientView, v: RendererView, contents: Option<Seq<char>>) -> (
    ClientView,
    RendererView,
    Option<Seq<u8>>,
) {
    match contents {
        Some(t) => if t.len() == 0 {
            let (c1, v1) = spec_status_shown(c, v, "clipboard empty"@);
            (c1, v1, None)
        } else {
            (c, v, Some(encode_utf8(t)))
        },
        None => {
            let (c1, v1) = spec_status_shown(c, v, "clipboard unavailable"@);
            (c1, v1, None)
        },
    }
}

/// `message` shown as a plain status, and a redraw asked for.
pub open spec fn spec_status_shown(c: ClientView, v: RendererView, message: Seq<char>) -> (ClientView, RendererView) {
    (
        ClientView { force_render: true, ..c },
        RendererView {
            status_message: Some(message),
            status_highlight: None,
            status_is_error: false,
            needs_redraw: true,
            ..v
        },
    )
}

/// The text of a clipboard read, if it succeeded.
pub open spec fn read_text(contents: Result<String, String>) -> Option<Seq<char>> {
    match contents {
        Ok(t) => Some(t@),
        Err(_) => None,
    }
}

/// The bytes of an optional byte vector.
pub open spec fn opt_bytes(b: Option<Vec<u8>>) -> Option<Seq<u8>> {
    match b {
        Some(v) => Some(v@),
        None => None,
    }
}

impl ClientView {
    /// Starts a paste from a clipboard that held `contents` (see
    /// `spec_paste`): the input to send, if any.
    pub fn paste_clipboard(&mut self, renderer: &mut GridRenderer, contents: Result<String, String>) -> (res: Option<
        Vec<u8>,
    >)
        requires
            old(renderer).wf(),
        ensures
            final(renderer).wf(),
            (*final(self), final(renderer)@, opt_bytes(res)) == spec_paste(*old(self), old(renderer)@, read_text(contents)),
    {
        match contents {
            Ok(text) => {
                if text.as_str().unicode_len() == 0 {
                    renderer.set_status_message(Some(String::from_str("clipboard empty")));
                    self.force_render = true;
                    None
                } else {
                    Some(text.as_str().as_bytes_vec())
                }
            },
            Err(_) => {
                renderer.set_status_message(Some(String::from_str("clipboard unavailable")));
                self.force_render = true;
                None
            },
        }
    }

    /// Sending pasted input failed: the status says so.
    pub fn paste_failed(&mut self, renderer: &mut GridRenderer)
        requires
            old(renderer).wf(),
        ensures
            final(renderer).wf(),
            (*final(self), final(renderer)@) == spec_status_shown(*old(self), old(renderer)@, "clipboard paste failed"@),
    {
        renderer.set_status_message(Some(String::from_str("clipboard paste failed")));
        self.force_render = true;
    }
}

impl ClientView {
    /// Shows a failed copy (see `spec_copy_failed`).
    fn show_copy_failure(&mut self, renderer: &mut GridRenderer, message: String, exit_after: bool, now: u64)
        requires
            old(renderer).wf(),
        ensures
            final(renderer).wf(),
            (*final(self), final(renderer)@) == spec_copy_failed(*old(self), old(renderer)@, message@, exit_after, now),
    {
        if exit_after {
            self.exit_copy_mode(renderer, now);
        }
        renderer.set_status_error_message(Some(message));
        self.force_render = true;
    }

    /// Starts copying the selection (see `spec_copy_selection`): the text
    /// for the clipboard, or `None` when the failure was shown.
    pub fn copy_selection(&mut self, renderer: &mut GridRenderer, exit_after: bool, now: u64) -> (res: Option<String>)
        requires
            old(renderer).wf(),
        ensures
            final(renderer).wf(),
            (*final(self), final(renderer)@, opt_text(res)) == spec_copy_selection(
                *old(self),
                old(renderer)@,
                exit_after,
                now,
            ),
    {
        let active = match &self.copy_mode {
            Some(state) => state.selection_active,
            None => false,
        };
        if !active {
            self.show_copy_failure(renderer, String::from_str("copy-mode: no active selection"), exit_after, now);
            return None;
        }
        match renderer.selection_text() {
            Some(text) => Some(text),
            None => {
                self.show_copy_failure(renderer, String::from_str("copy-mode: selection unavailable"), exit_after, now);
                None
            },
        }
    }

    /// Finishes a copy of `text` once the clipboard answered `outcome`
    /// (see `spec_copy_done`).
    pub fn copy_done(
        &mut self,
        renderer: &mut GridRenderer,
        text: &str,
        outcome: Result<(), String>,
        exit_after: bool,
        now: u64,
    )
        requires
            old(renderer).wf(),
        ensures
            final(renderer).wf(),
            (*final(self), final(renderer)@) == spec_copy_done(
                *old(self),
                old(renderer)@,
                text@,
                outcome_error(outcome),
                exit_after,
                now,
            ),
    {
        match outcome {
            Ok(()) => {
                if exit_after {
                    self.exit_copy_mode(renderer, now);
                    renderer.set_status_message(Some(copy_status_message(text)));
                } else {
                    self.update_copy_mode_status(renderer);
                }
                self.force_render = true;
            },
            Err(err) => {
                let mut chars: Vec<char> = Vec::new();
                push_text(&mut chars, "copy failed: ");
                push_text(&mut chars, err.as_str());
                self.show_copy_failure(renderer, string_from_chars(chars), exit_after, now);
            },
        }
    }
}

} // verus!

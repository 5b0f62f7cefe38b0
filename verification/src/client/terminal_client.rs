//! The full-screen client's key handling: what each key sends to the host
//! or does locally, and the passphrase prompt shown before a session starts.

use vstd::prelude::*;

use super::terminal::keys::{KeyCode, KeyEvent};
use crate::text::{str_chars, string_from_chars};

verus! {

/// What a key did at the passphrase prompt.
#[derive(Debug, Clone)]
pub enum PassphrasePromptStep {
    /// Keep prompting.
    Continue,
    /// Enter with a passphrase typed: this is the passphrase.
    Done(String),
    /// Escape: the prompt was cancelled.
    Cancelled,
}

/// A key at the passphrase prompt: Enter ends it when something was typed,
/// a character is added, Backspace removes the last character, Escape
/// cancels; other keys do nothing.
pub fn passphrase_prompt_key(passphrase: &mut String, key: &KeyEvent) -> (res: PassphrasePromptStep)
    ensures
        match key.code {
            KeyCode::Enter => if old(passphrase)@.len() > 0 {
                (res matches PassphrasePromptStep::Done(p) && p@ == old(passphrase)@) && final(passphrase)@ == old(
                    passphrase,
                )@
            } else {
                res is Continue && final(passphrase)@ == old(passphrase)@
            },
            KeyCode::Char(c) => res is Continue && final(passphrase)@ == old(passphrase)@.push(c),
            KeyCode::Backspace => res is Continue && final(passphrase)@ == (if old(passphrase)@.len() > 0 {
                old(passphrase)@.drop_last()
            } else {
                old(passphrase)@
            }),
            KeyCode::Esc => res is Cancelled && final(passphrase)@ == old(passphrase)@,
            _ => res is Continue && final(passphrase)@ == old(passphrase)@,
        },
{
    match key.code {
        KeyCode::Enter => {
            if !passphrase.as_str().is_empty() {
                PassphrasePromptStep::Done(passphrase.clone())
            } else {
                PassphrasePromptStep::Continue
            }
        },
        KeyCode::Char(c) => {
            let mut chars = str_chars(passphrase.as_str());
            chars.push(c);
            *passphrase = string_from_chars(chars);
            PassphrasePromptStep::Continue
        },
        KeyCode::Backspace => {
            let mut chars = str_chars(passphrase.as_str());
            if chars.len() > 0 {
                chars.pop();
            }
            *passphrase = string_from_chars(chars);
            PassphrasePromptStep::Continue
        },
        KeyCode::Esc => PassphrasePromptStep::Cancelled,
        _ => PassphrasePromptStep::Continue,
    }
}

/// The passphrase line of the prompt: the text typed, followed by a block
/// cursor while the cursor blinks on.
pub fn passphrase_prompt_line(passphrase: &str, show_cursor: bool) -> (res: String)
    ensures
        res@ == (if show_cursor {
            passphrase@.push('█')
        } else {
            passphrase@
        }),
{
    let mut chars = str_chars(passphrase);
    if show_cursor {
        chars.push('█');
    }
    string_from_chars(chars)
}


/// What a key press does in the full-screen client.
#[derive(Debug, Clone, PartialEq, Eq)]
pub enum KeyAction {
    /// Ctrl+C: leave the client.
    Shutdown,
    /// Send these bytes to the host as terminal input.
    Send(Vec<u8>),
    /// Scroll the view by this many lines (up when positive).
    Scroll(i32),
    /// Escape while selecting: leave selection mode.
    CancelSelection,
    /// Nothing.
    Ignore,
}

/// The content of a `KeyAction`.
pub enum KeyActionView {
    Shutdown,
    Send(Seq<u8>),
    Scroll(int),
    CancelSelection,
    Ignore,
}

impl View for KeyAction {
    type V = KeyActionView;

    open spec fn view(&self) -> KeyActionView {
        match self {
            KeyAction::Shutdown => KeyActionView::Shutdown,
            KeyAction::Send(bytes) => KeyActionView::Send(bytes@),
            KeyAction::Scroll(lines) => KeyActionView::Scroll(*lines as int),
            KeyAction::CancelSelection => KeyActionView::CancelSelection,
            KeyAction::Ignore => KeyActionView::Ignore,
        }
    }
}

/// The control code Ctrl sends with character `c`: letters (either case)
/// give their place in the alphabet, and `[`, `\\`, `]`, `^`, `_` give
/// 0x1B to 0x1F; other characters send nothing.
pub open spec fn control_code(c: char) -> Option<u8> {
    if 'a' <= c <= 'z' {
        Some((c as u32 - 'a' as u32 + 1) as u8)
    } else if 'A' <= c <= 'Z' {
        Some((c as u32 - 'A' as u32 + 1) as u8)
    } else if c == '[' {
        Some(0x1Bu8)
    } else if c == '\\' {
        Some(0x1Cu8)
    } else if c == ']' {
        Some(0x1Du8)
    } else if c == '^' {
        Some(0x1Eu8)
    } else if c == '_' {
        Some(0x1Fu8)
    } else {
        None
    }
}

/// The escape sequence of function key F`n`, for F1 to F12.
pub open spec fn function_key_sequence(n: u8) -> Option<Seq<u8>> {
    if n == 1 {
        Some(seq![0x1Bu8, 0x4Fu8, 0x50u8])
    } else if n == 2 {
        Some(seq![0x1Bu8, 0x4Fu8, 0x51u8])
    } else if n == 3 {
        Some(seq![0x1Bu8, 0x4Fu8, 0x52u8])
    } else if n == 4 {
        Some(seq![0x1Bu8, 0x4Fu8, 0x53u8])
    } else if 5 <= n <= 12 {
        let code: int = if n == 5 {
            15
        } else if n <= 10 {
            n + 11
        } else {
            n + 12
        };
        Some(seq![0x1Bu8, 0x5Bu8, (0x30 + code / 10) as u8, (0x30 + code % 10) as u8, 0x7Eu8])
    } else {
        None
    }
}

/// What a key press does: Ctrl+C leaves; Ctrl with another character sends
/// its control code (or nothing); characters send their low byte; Enter,
/// Tab, Backspace and Escape send CR, TAB, DEL and ESC, except that Escape
/// ends a selection; arrows, Home, End, Delete, Insert and F1 to F12 send
/// their escape sequences; PageUp and PageDown scroll ten lines with Shift
/// and send their sequences without; other keys do nothing.
pub open spec fn spec_key_action(key: KeyEvent, selecting: bool) -> KeyActionView {
    if key.modifiers.control && key.code is Char {
        let c = key.code->Char_0;
        if c == 'c' || c == 'C' {
            KeyActionView::Shutdown
        } else {
            match control_code(c) {
                Some(b) => KeyActionView::Send(seq![b]),
                None => KeyActionView::Ignore,
            }
        }
    } else {
        match key.code {
            KeyCode::Char(c) => KeyActionView::Send(seq![(c as u32) as u8]),
            KeyCode::Enter => KeyActionView::Send(seq![0x0Du8]),
            KeyCode::Tab => KeyActionView::Send(seq![0x09u8]),
            KeyCode::Backspace => KeyActionView::Send(seq![0x7Fu8]),
            KeyCode::Esc => if selecting {
                KeyActionView::CancelSelection
            } else {
                KeyActionView::Send(seq![0x1Bu8])
            },
            KeyCode::Up => KeyActionView::Send(seq![0x1Bu8, 0x5Bu8, 0x41u8]),
            KeyCode::Down => KeyActionView::Send(seq![0x1Bu8, 0x5Bu8, 0x42u8]),
            KeyCode::Left => KeyActionView::Send(seq![0x1Bu8, 0x5Bu8, 0x44u8]),
            KeyCode::Right => KeyActionView::Send(seq![0x1Bu8, 0x5Bu8, 0x43u8]),
            KeyCode::PageUp => if key.modifiers.shift {
                KeyActionView::Scroll(10)
            } else {
                KeyActionView::Send(seq![0x1Bu8, 0x5Bu8, 0x35u8, 0x7Eu8])
            },
            KeyCode::PageDown => if key.modifiers.shift {
                KeyActionView::Scroll(-10)
            } else {
                KeyActionView::Send(seq![0x1Bu8, 0x5Bu8, 0x36u8, 0x7Eu8])
            },
            KeyCode::Home => KeyActionView::Send(seq![0x1Bu8, 0x5Bu8, 0x48u8]),
            KeyCode::End => KeyActionView::Send(seq![0x1Bu8, 0x5Bu8, 0x46u8]),
            KeyCode::Delete => KeyActionView::Send(seq![0x1Bu8, 0x5Bu8, 0x33u8, 0x7Eu8]),
            KeyCode::Insert => KeyActionView::Send(seq![0x1Bu8, 0x5Bu8, 0x32u8, 0x7Eu8]),
            KeyCode::F(n) => match function_key_sequence(n) {
                Some(bytes) => KeyActionView::Send(bytes),
                None => KeyActionView::Ignore,
            },
            _ => KeyActionView::Ignore,
        }
    }
}

/// The control code Ctrl sends with `c` (see `control_code`).
fn control_byte(c: char) -> (res: Option<u8>)
    ensures
        res == control_code(c),
{
    if c >= 'a' && c <= 'z' {
        Some(((c as u32) - ('a' as u32) + 1) as u8)
    } else if c >= 'A' && c <= 'Z' {
        Some(((c as u32) - ('A' as u32) + 1) as u8)
    } else if c == '[' {
        Some(0x1B)
    } else if c == '\\' {
        Some(0x1C)
    } else if c == ']' {
        Some(0x1D)
    } else if c == '^' {
        Some(0x1E)
    } else if c == '_' {
        Some(0x1F)
    } else {
        None
    }
}

/// The escape sequence of function key F`n` (see `function_key_sequence`).
fn function_key_bytes(n: u8) -> (res: Option<Vec<u8>>)
    ensures
        match res {
            Some(v) => function_key_sequence(n) == Some(v@),
            None => function_key_sequence(n) is None,
        },
{
    let v = match n {
        1 => vec![0x1Bu8, 0x4Fu8, 0x50u8],
        2 => vec![0x1Bu8, 0x4Fu8, 0x51u8],
        3 => vec![0x1Bu8, 0x4Fu8, 0x52u8],
        4 => vec![0x1Bu8, 0x4Fu8, 0x53u8],
        5 => vec![0x1Bu8, 0x5Bu8, 0x31u8, 0x35u8, 0x7Eu8],
        6 => vec![0x1Bu8, 0x5Bu8, 0x31u8, 0x37u8, 0x7Eu8],
        7 => vec![0x1Bu8, 0x5Bu8, 0x31u8, 0x38u8, 0x7Eu8],
        8 => vec![0x1Bu8, 0x5Bu8, 0x31u8, 0x39u8, 0x7Eu8],
        9 => vec![0x1Bu8, 0x5Bu8, 0x32u8, 0x30u8, 0x7Eu8],
        10 => vec![0x1Bu8, 0x5Bu8, 0x32u8, 0x31u8, 0x7Eu8],
        11 => vec![0x1Bu8, 0x5Bu8, 0x32u8, 0x33u8, 0x7Eu8],
        12 => vec![0x1Bu8, 0x5Bu8, 0x32u8, 0x34u8, 0x7Eu8],
        _ => {
            return None;
        },
    };
    proof {
        assert(function_key_sequence(n) == Some(v@));
    }
    Some(v)
}

/// What a key press does (see `spec_key_action`); `selecting` says
/// whether the mouse is selecting text.
pub fn handle_key_event(key: &KeyEvent, selecting: bool) -> (res: KeyAction)
    ensures
        res@ == spec_key_action(*key, selecting),
{
    if key.modifiers.control {
        if let KeyCode::Char(c) = key.code {
            if c == 'c' || c == 'C' {
                return KeyAction::Shutdown;
            }
            return match control_byte(c) {
                Some(b) => {
                    let v = vec![b];
                    assert(v@ =~= seq![b]);
                    KeyAction::Send(v)
                },
                None => KeyAction::Ignore,
            };
        }
    }
    let res = match key.code {
        KeyCode::Char(c) => {
            let v = vec![(c as u32) as u8];
            assert(v@ =~= seq![(c as u32) as u8]);
            KeyAction::Send(v)
        },
        KeyCode::Enter => {
            let v = vec![0x0Du8];
            assert(v@ =~= seq![0x0Du8]);
            KeyAction::Send(v)
        },
        KeyCode::Tab => {
            let v = vec![0x09u8];
            assert(v@ =~= seq![0x09u8]);
            KeyAction::Send(v)
        },
        KeyCode::Backspace => {
            let v = vec![0x7Fu8];
            assert(v@ =~= seq![0x7Fu8]);
            KeyAction::Send(v)
        },
        KeyCode::Esc => if selecting {
            KeyAction::CancelSelection
        } else {
            let v = vec![0x1Bu8];
            assert(v@ =~= seq![0x1Bu8]);
            KeyAction::Send(v)
        },
        KeyCode::Up => {
            let v = vec![0x1Bu8, 0x5Bu8, 0x41u8];
            assert(v@ =~= seq![0x1Bu8, 0x5Bu8, 0x41u8]);
            KeyAction::Send(v)
        },
        KeyCode::Down => {
            let v = vec![0x1Bu8, 0x5Bu8, 0x42u8];
            assert(v@ =~= seq![0x1Bu8, 0x5Bu8, 0x42u8]);
            KeyAction::Send(v)
        },
        KeyCode::Left => {
            let v = vec![0x1Bu8, 0x5Bu8, 0x44u8];
            assert(v@ =~= seq![0x1Bu8, 0x5Bu8, 0x44u8]);
            KeyAction::Send(v)
        },
        KeyCode::Right => {
            let v = vec![0x1Bu8, 0x5Bu8, 0x43u8];
            assert(v@ =~= seq![0x1Bu8, 0x5Bu8, 0x43u8]);
            KeyAction::Send(v)
        },
        KeyCode::PageUp => if key.modifiers.shift {
            KeyAction::Scroll(10)
        } else {
            let v = vec![0x1Bu8, 0x5Bu8, 0x35u8, 0x7Eu8];
            assert(v@ =~= seq![0x1Bu8, 0x5Bu8, 0x35u8, 0x7Eu8]);
            KeyAction::Send(v)
        },
        KeyCode::PageDown => if key.modifiers.shift {
            KeyAction::Scroll(-10)
        } else {
            let v = vec![0x1Bu8, 0x5Bu8, 0x36u8, 0x7Eu8];
            assert(v@ =~= seq![0x1Bu8, 0x5Bu8, 0x36u8, 0x7Eu8]);
            KeyAction::Send(v)
        },
        KeyCode::Home => {
            let v = vec![0x1Bu8, 0x5Bu8, 0x48u8];
            assert(v@ =~= seq![0x1Bu8, 0x5Bu8, 0x48u8]);
            KeyAction::Send(v)
        },
        KeyCode::End => {
            let v = vec![0x1Bu8, 0x5Bu8, 0x46u8];
            assert(v@ =~= seq![0x1Bu8, 0x5Bu8, 0x46u8]);
            KeyAction::Send(v)
        },
        KeyCode::Delete => {
            let v = vec![0x1Bu8, 0x5Bu8, 0x33u8, 0x7Eu8];
            assert(v@ =~= seq![0x1Bu8, 0x5Bu8, 0x33u8, 0x7Eu8]);
            KeyAction::Send(v)
        },
        KeyCode::Insert => {
            let v = vec![0x1Bu8, 0x5Bu8, 0x32u8, 0x7Eu8];
            assert(v@ =~= seq![0x1Bu8, 0x5Bu8, 0x32u8, 0x7Eu8]);
            KeyAction::Send(v)
        },
        KeyCode::F(n) => match function_key_bytes(n) {
            Some(bytes) => KeyAction::Send(bytes),
            None => KeyAction::Ignore,
        },
        _ => KeyAction::Ignore,
    };
    res
}

} // verus!

//! Keys and mouse events as the terminal client sees them: the bytes a key
//! or mouse event sends to the host, key bindings read from settings, and
//! the copy-mode command a key stands for.

use vstd::prelude::*;
use vstd::string::StringExecFns;

use super::{CopyModeKeySet, CopyModeSearchDirection};
use crate::client::grid_renderer::SelectionMode;
use crate::text::{char_from_ascii, decimal, push_decimal, spec_trim, str_chars, str_eq, str_to_ascii_lowercase, str_trim, string_from_chars};

verus! {

/// A key, as the terminal reports it. `Other` stands for every key that
/// none of this logic tells apart.
#[derive(Clone, Copy, Debug, PartialEq, Eq, Structural)]
pub enum KeyCode {
    Char(char),
    Enter,
    Tab,
    BackTab,
    Backspace,
    Esc,
    Up,
    Down,
    Left,
    Right,
    Home,
    End,
    PageUp,
    PageDown,
    Delete,
    Insert,
    F(u8),
    Other,
}

/// The modifier keys held with a key or mouse event.
#[derive(Clone, Copy, Debug, PartialEq, Eq, Structural)]
pub struct KeyModifiers {
    pub shift: bool,
    pub control: bool,
    pub alt: bool,
    pub super_key: bool,
    pub hyper: bool,
    pub meta: bool,
}

/// No modifier held.
pub open spec fn no_modifiers() -> KeyModifiers {
    KeyModifiers { shift: false, control: false, alt: false, super_key: false, hyper: false, meta: false }
}

impl KeyModifiers {
    /// No modifier held.
    pub fn none() -> (res: Self)
        ensures
            res == no_modifiers(),
    {
        KeyModifiers { shift: false, control: false, alt: false, super_key: false, hyper: false, meta: false }
    }
}

/// Whether a key went down, repeated or came up.
#[derive(Clone, Copy, Debug, PartialEq, Eq, Structural)]
pub enum KeyEventKind {
    Press,
    Repeat,
    Release,
}

/// A key event.
#[derive(Clone, Copy, Debug, PartialEq, Eq, Structural)]
pub struct KeyEvent {
    pub code: KeyCode,
    pub modifiers: KeyModifiers,
    pub kind: KeyEventKind,
}

/// A mouse button.
#[derive(Clone, Copy, Debug, PartialEq, Eq, Structural)]
pub enum MouseButton {
    Left,
    Right,
    Middle,
}

/// What a mouse did.
#[derive(Clone, Copy, Debug, PartialEq, Eq, Structural)]
pub enum MouseEventKind {
    Down(MouseButton),
    Up(MouseButton),
    Drag(MouseButton),
    Moved,
    ScrollDown,
    ScrollUp,
    ScrollLeft,
    ScrollRight,
}

/// A mouse event at a zero-based cell of the terminal.
#[derive(Clone, Copy, Debug, PartialEq, Eq, Structural)]
pub struct MouseEvent {
    pub kind: MouseEventKind,
    pub column: u16,
    pub row: u16,
    pub modifiers: KeyModifiers,
}

/// A key with its modifiers, as a shortcut.
#[derive(Clone, Copy, Debug, PartialEq, Eq, Structural)]
pub struct KeyBinding {
    pub code: KeyCode,
    pub modifiers: KeyModifiers,
}

impl KeyBinding {
    /// The binding of `code` with exactly `modifiers`.
    pub fn new(code: KeyCode, modifiers: KeyModifiers) -> (res: Self)
        ensures
            res == (KeyBinding { code, modifiers }),
    {
        KeyBinding { code, modifiers }
    }

    /// Whether `key` is a press of this binding's key with exactly its
    /// modifiers.
    pub fn matches(&self, key: &KeyEvent) -> (res: bool)
        ensures
            res == (key.kind == KeyEventKind::Press && key.code == self.code && key.modifiers == self.modifiers),
    {
        key.kind == KeyEventKind::Press && key.code == self.code && key.modifiers == self.modifiers
    }
}

/// The lower-case ASCII letter form of `c`, as `char::to_ascii_lowercase`.
pub open spec fn lower(c: char) -> char {
    crate::text::ascii_lower(c)
}

fn ascii_lowercase(c: char) -> (res: char)
    ensures
        res == lower(c),
{
    if 'A' <= c && c <= 'Z' {
        let code: u32 = c as u32 + 32;
        proof {
            assert(65 <= code - 32 <= 90);
        }
        char_from_ascii(code)
    } else {
        c
    }
}

/// The bytes a key event sends to the host: a character as its low byte,
/// after ESC when Alt is held, or as its control code when Control is held
/// (letters only; other characters send nothing); fixed sequences for the
/// other keys it knows; nothing for the rest.
pub open spec fn spec_encode_key_event(key: KeyEvent) -> Option<Seq<u8>> {
    match key.code {
        KeyCode::Char(c) => {
            let prefix: Seq<u8> = if key.modifiers.alt {
                seq![0x1bu8]
            } else {
                seq![]
            };
            if key.modifiers.control {
                if 'a' <= lower(c) && lower(c) <= 'z' {
                    Some(prefix.push(((lower(c) as u32) - 96) as u8))
                } else {
                    None
                }
            } else {
                Some(prefix.push(((c as u32) % 256) as u8))
            }
        },
        KeyCode::Enter => Some(seq![0x0au8]),
        KeyCode::Tab => Some(seq![0x09u8]),
        KeyCode::Backspace => Some(seq![0x7fu8]),
        KeyCode::Esc => Some(seq![0x1bu8]),
        KeyCode::Up => Some(seq![0x1bu8, 0x5b, 0x41]),
        KeyCode::Down => Some(seq![0x1bu8, 0x5b, 0x42]),
        KeyCode::Right => Some(seq![0x1bu8, 0x5b, 0x43]),
        KeyCode::Left => Some(seq![0x1bu8, 0x5b, 0x44]),
        KeyCode::Home => Some(seq![0x1bu8, 0x5b, 0x48]),
        KeyCode::End => Some(seq![0x1bu8, 0x5b, 0x46]),
        KeyCode::PageUp => Some(seq![0x1bu8, 0x5b, 0x35, 0x7e]),
        KeyCode::PageDown => Some(seq![0x1bu8, 0x5b, 0x36, 0x7e]),
        KeyCode::Delete => Some(seq![0x1bu8, 0x5b, 0x33, 0x7e]),
        KeyCode::Insert => Some(seq![0x1bu8, 0x5b, 0x32, 0x7e]),
        _ => None,
    }
}

/// The bytes a key event sends to the host (see `spec_encode_key_event`).
pub fn encode_key_event(key: KeyEvent) -> (res: Option<Vec<u8>>)
    ensures
        match res {
            Some(v) => spec_encode_key_event(key) == Some(v@),
            None => spec_encode_key_event(key) is None,
        },
{
    match key.code {
        KeyCode::Char(c) => {
            let mut bytes: Vec<u8> = Vec::new();
            if key.modifiers.alt {
                bytes.push(0x1b);
            }
            if key.modifiers.control {
                let l = ascii_lowercase(c);
                if 'a' <= l && l <= 'z' {
                    let code: u32 = l as u32 - 96;
                    bytes.push(code as u8);
                } else {
                    return None;
                }
            } else {
                let code: u32 = c as u32 % 256;
                bytes.push(code as u8);
            }
            proof {
                if key.modifiers.alt {
                    assert(bytes@ =~= seq![0x1bu8].push(bytes@.last()));
                } else {
                    assert(bytes@ =~= Seq::<u8>::empty().push(bytes@.last()));
                }
            }
            Some(bytes)
        },
        KeyCode::Enter => Some(vec![0x0a]),
        KeyCode::Tab => Some(vec![0x09]),
        KeyCode::Backspace => Some(vec![0x7f]),
        KeyCode::Esc => Some(vec![0x1b]),
        KeyCode::Up => Some(vec![0x1b, 0x5b, 0x41]),
        KeyCode::Down => Some(vec![0x1b, 0x5b, 0x42]),
        KeyCode::Right => Some(vec![0x1b, 0x5b, 0x43]),
        KeyCode::Left => Some(vec![0x1b, 0x5b, 0x44]),
        KeyCode::Home => Some(vec![0x1b, 0x5b, 0x48]),
        KeyCode::End => Some(vec![0x1b, 0x5b, 0x46]),
        KeyCode::PageUp => Some(vec![0x1b, 0x5b, 0x35, 0x7e]),
        KeyCode::PageDown => Some(vec![0x1b, 0x5b, 0x36, 0x7e]),
        KeyCode::Delete => Some(vec![0x1b, 0x5b, 0x33, 0x7e]),
        KeyCode::Insert => Some(vec![0x1b, 0x5b, 0x32, 0x7e]),
        _ => None,
    }
}

/// Whether `key` asks to copy: Cmd+C, Ctrl+Shift+C (either case of the
/// letter), or Ctrl+Insert.
pub open spec fn spec_is_copy_shortcut(key: KeyEvent) -> bool {
    match key.code {
        KeyCode::Char(c) => (key.modifiers.super_key && lower(c) == 'c') || (key.modifiers.control
            && key.modifiers.shift && lower(c) == 'c'),
        KeyCode::Insert => key.modifiers.control,
        _ => false,
    }
}

/// Whether `key` asks to copy (see `spec_is_copy_shortcut`).
pub fn is_copy_shortcut(key: &KeyEvent) -> (res: bool)
    ensures
        res == spec_is_copy_shortcut(*key),
{
    match key.code {
        KeyCode::Char(c) => {
            let l = ascii_lowercase(c);
            (key.modifiers.super_key && l == 'c') || (key.modifiers.control && key.modifiers.shift && l == 'c')
        },
        KeyCode::Insert => key.modifiers.control,
        _ => false,
    }
}

/// The button number a mouse report gives `button`.
pub open spec fn spec_mouse_button_code(button: MouseButton) -> u16 {
    match button {
        MouseButton::Left => 0,
        MouseButton::Middle => 1,
        MouseButton::Right => 2,
    }
}

/// The button number a mouse report gives `button`.
pub fn mouse_button_code(button: MouseButton) -> (res: Option<u16>)
    ensures
        res == Some(spec_mouse_button_code(button)),
{
    match button {
        MouseButton::Left => Some(0),
        MouseButton::Middle => Some(1),
        MouseButton::Right => Some(2),
    }
}

/// The event code and final character of an SGR mouse report for `mouse`,
/// before modifiers: none for moves and sideways scrolling.
pub open spec fn spec_mouse_base(kind: MouseEventKind) -> Option<(u16, char)> {
    match kind {
        MouseEventKind::Down(b) => Some((spec_mouse_button_code(b), 'M')),
        MouseEventKind::Up(_) => Some((3u16, 'm')),
        MouseEventKind::Drag(b) => Some(((spec_mouse_button_code(b) + 32) as u16, 'M')),
        MouseEventKind::ScrollUp => Some((64u16, 'M')),
        MouseEventKind::ScrollDown => Some((65u16, 'M')),
        _ => None,
    }
}

/// The event code of an SGR mouse report: the base code plus 4 for Shift,
/// 8 for Alt and 16 for Control.
pub open spec fn spec_mouse_code(base: u16, m: KeyModifiers) -> nat {
    (base + (if m.shift {
        4nat
    } else {
        0
    }) + (if m.alt {
        8nat
    } else {
        0
    }) + (if m.control {
        16nat
    } else {
        0
    })) as nat
}

/// One-based coordinate of a report, saturating at the largest `u16`.
pub open spec fn one_based(v: u16) -> nat {
    if v == u16::MAX {
        v as nat
    } else {
        (v + 1) as nat
    }
}

/// The SGR mouse report for `mouse`: ESC `[<` code `;` column `;` row and
/// `M` (`m` on release), with one-based coordinates; none for moves and
/// sideways scrolling.
pub open spec fn spec_encode_mouse_event(mouse: MouseEvent) -> Option<Seq<char>> {
    match spec_mouse_base(mouse.kind) {
        Some((base, suffix)) => Some(
            "\x1b[<"@ + decimal(spec_mouse_code(base, mouse.modifiers)) + ";"@ + decimal(one_based(mouse.column))
                + ";"@ + decimal(one_based(mouse.row)) + seq![suffix],
        ),
        None => None,
    }
}

fn mouse_report(base: u16, suffix: char, m: KeyModifiers, column: u16, row: u16) -> (res: Vec<char>)
    requires
        base <= 100,
    ensures
        res@ == "\x1b[<"@ + decimal(spec_mouse_code(base, m)) + ";"@ + decimal(one_based(column)) + ";"@ + decimal(
            one_based(row),
        ) + seq![suffix],
{
    let mut code: u32 = base as u32;
    if m.shift {
        code = code + 4;
    }
    if m.alt {
        code = code + 8;
    }
    if m.control {
        code = code + 16;
    }
    let col: u32 = if column == u16::MAX {
        column as u32
    } else {
        column as u32 + 1
    };
    let r: u32 = if row == u16::MAX {
        row as u32
    } else {
        row as u32 + 1
    };
    let mut text: Vec<char> = Vec::new();
    text.push('\x1b');
    text.push('[');
    text.push('<');
    push_decimal(&mut text, code as u64);
    text.push(';');
    push_decimal(&mut text, col as u64);
    text.push(';');
    push_decimal(&mut text, r as u64);
    text.push(suffix);
    proof {
        reveal_strlit("\x1b[<");
        reveal_strlit(";");
        assert(code == spec_mouse_code(base, m));
        assert(text@ =~= "\x1b[<"@ + decimal(code as nat) + ";"@ + decimal(col as nat) + ";"@ + decimal(r as nat)
            + seq![suffix]);
    }
    text
}

fn ascii_bytes(text: &Vec<char>) -> (res: Vec<u8>)
    ensures
        res@ == text@.map_values(|c: char| (c as u32) as u8),
{
    let mut bytes: Vec<u8> = Vec::new();
    let mut i: usize = 0;
    while i < text.len()
        invariant
            i <= text@.len(),
            bytes@ =~= text@.take(i as int).map_values(|c: char| (c as u32) as u8),
        decreases text@.len() - i,
    {
        let c = text[i];
        let v: u32 = c as u32;
        bytes.push(v as u8);
        proof {
            assert(text@.take(i + 1) =~= text@.take(i as int).push(c));
        }
        i = i + 1;
    }
    proof {
        assert(text@.take(text@.len() as int) =~= text@);
    }
    bytes
}

/// The SGR mouse report for `mouse` as bytes (see
/// `spec_encode_mouse_event`; its characters are all ASCII).
pub fn encode_mouse_event(mouse: &MouseEvent) -> (res: Option<Vec<u8>>)
    ensures
        match res {
            Some(v) => spec_encode_mouse_event(*mouse) matches Some(s) && v@ == s.map_values(|c: char| (c as u32) as u8),
            None => spec_encode_mouse_event(*mouse) is None,
        },
{
    let (base, suffix): (u16, char) = match mouse.kind {
        MouseEventKind::Down(button) => match mouse_button_code(button) {
            Some(c) => (c, 'M'),
            None => return None,
        },
        MouseEventKind::Up(_) => (3, 'm'),
        MouseEventKind::Drag(button) => match mouse_button_code(button) {
            Some(c) => (c + 32, 'M'),
            None => return None,
        },
        MouseEventKind::ScrollUp => (64, 'M'),
        MouseEventKind::ScrollDown => (65, 'M'),
        _ => return None,
    };
    let text = mouse_report(base, suffix, mouse.modifiers, mouse.column, mouse.row);
    Some(ascii_bytes(&text))
}


/// The pieces of `s` between occurrences of `sep`, as `str::split` gives
/// them: one piece more than there are separators, empty ones included.
pub open spec fn spec_split(s: Seq<char>, sep: char) -> Seq<Seq<char>>
    decreases s.len(),
{
    if s.len() == 0 {
        seq![Seq::<char>::empty()]
    } else {
        let r = spec_split(s.drop_last(), sep);
        if s.last() == sep {
            r.push(Seq::<char>::empty())
        } else {
            r.update(r.len() - 1, r.last().push(s.last()))
        }
    }
}

proof fn lemma_split_nonempty(s: Seq<char>, sep: char)
    ensures
        spec_split(s, sep).len() >= 1,
    decreases s.len(),
{
    if s.len() > 0 {
        lemma_split_nonempty(s.drop_last(), sep);
    }
}

/// The views of a list of character vectors.
pub open spec fn char_views(v: Seq<Vec<char>>) -> Seq<Seq<char>> {
    v.map_values(|p: Vec<char>| p@)
}

fn split_chars(chars: &Vec<char>, sep: char) -> (res: Vec<Vec<char>>)
    ensures
        char_views(res@) == spec_split(chars@, sep),
{
    let mut parts: Vec<Vec<char>> = Vec::new();
    let mut cur: Vec<char> = Vec::new();
    let mut i: usize = 0;
    proof {
        assert(chars@.take(0) =~= Seq::<char>::empty());
        assert(char_views(parts@).push(cur@) =~= spec_split(chars@.take(0), sep));
    }
    while i < chars.len()
        invariant
            i <= chars@.len(),
            char_views(parts@).push(cur@) == spec_split(chars@.take(i as int), sep),
        decreases chars@.len() - i,
    {
        let c = chars[i];
        let ghost before = char_views(parts@).push(cur@);
        proof {
            assert(chars@.take(i + 1).drop_last() =~= chars@.take(i as int));
            assert(chars@.take(i + 1).last() == c);
        }
        if c == sep {
            parts.push(cur);
            cur = Vec::new();
            proof {
                assert(char_views(parts@).push(cur@) =~= before.push(Seq::<char>::empty()));
            }
        } else {
            let ghost old_cur = cur@;
            cur.push(c);
            proof {
                assert(char_views(parts@).push(cur@) =~= before.update(before.len() - 1, before.last().push(c)));
            }
        }
        i = i + 1;
    }
    proof {
        assert(chars@.take(chars@.len() as int) =~= chars@);
    }
    parts.push(cur);
    proof {
        assert(char_views(parts@) =~= spec_split(chars@, sep));
    }
    parts
}

/// A modifier a binding names.
#[derive(Clone, Copy, Debug, PartialEq, Eq, Structural)]
pub enum ModifierName {
    Control,
    Alt,
    Shift,
    Super,
}

/// The modifier a lower-case binding token names: `ctrl`/`control`,
/// `alt`/`option`/`opt`, `shift`, and `super`/`cmd`/`command`.
pub open spec fn spec_modifier_token(t: Seq<char>) -> Option<ModifierName> {
    if t == "ctrl"@ || t == "control"@ {
        Some(ModifierName::Control)
    } else if t == "alt"@ || t == "option"@ || t == "opt"@ {
        Some(ModifierName::Alt)
    } else if t == "shift"@ {
        Some(ModifierName::Shift)
    } else if t == "super"@ || t == "cmd"@ || t == "command"@ {
        Some(ModifierName::Super)
    } else {
        None
    }
}

fn modifier_token(t: &str) -> (res: Option<ModifierName>)
    ensures
        res == spec_modifier_token(t@),
{
    if str_eq(t, "ctrl") || str_eq(t, "control") {
        Some(ModifierName::Control)
    } else if str_eq(t, "alt") || str_eq(t, "option") || str_eq(t, "opt") {
        Some(ModifierName::Alt)
    } else if str_eq(t, "shift") {
        Some(ModifierName::Shift)
    } else if str_eq(t, "super") || str_eq(t, "cmd") || str_eq(t, "command") {
        Some(ModifierName::Super)
    } else {
        None
    }
}

/// `m` with modifier `name` held as well.
pub open spec fn spec_with_modifier(m: KeyModifiers, name: ModifierName) -> KeyModifiers {
    match name {
        ModifierName::Control => KeyModifiers { control: true, ..m },
        ModifierName::Alt => KeyModifiers { alt: true, ..m },
        ModifierName::Shift => KeyModifiers { shift: true, ..m },
        ModifierName::Super => KeyModifiers { super_key: true, ..m },
    }
}

fn with_modifier(m: KeyModifiers, name: ModifierName) -> (res: KeyModifiers)
    ensures
        res == spec_with_modifier(m, name),
{
    match name {
        ModifierName::Control => KeyModifiers { control: true, ..m },
        ModifierName::Alt => KeyModifiers { alt: true, ..m },
        ModifierName::Shift => KeyModifiers { shift: true, ..m },
        ModifierName::Super => KeyModifiers { super_key: true, ..m },
    }
}

/// The key a lower-case binding token names: the named keys, `space`, or
/// a single character.
pub open spec fn spec_key_code_token(t: Seq<char>) -> Option<KeyCode> {
    if t == "esc"@ || t == "escape"@ {
        Some(KeyCode::Esc)
    } else if t == "enter"@ || t == "return"@ {
        Some(KeyCode::Enter)
    } else if t == "tab"@ {
        Some(KeyCode::Tab)
    } else if t == "backspace"@ {
        Some(KeyCode::Backspace)
    } else if t == "pageup"@ {
        Some(KeyCode::PageUp)
    } else if t == "pagedown"@ {
        Some(KeyCode::PageDown)
    } else if t == "home"@ {
        Some(KeyCode::Home)
    } else if t == "end"@ {
        Some(KeyCode::End)
    } else if t == "space"@ {
        Some(KeyCode::Char(' '))
    } else if t == "delete"@ {
        Some(KeyCode::Delete)
    } else if t == "insert"@ {
        Some(KeyCode::Insert)
    } else if t.len() == 1 {
        Some(KeyCode::Char(t[0]))
    } else {
        None
    }
}

fn key_code_token(t: &str) -> (res: Option<KeyCode>)
    ensures
        res == spec_key_code_token(t@),
{
    if str_eq(t, "esc") || str_eq(t, "escape") {
        Some(KeyCode::Esc)
    } else if str_eq(t, "enter") || str_eq(t, "return") {
        Some(KeyCode::Enter)
    } else if str_eq(t, "tab") {
        Some(KeyCode::Tab)
    } else if str_eq(t, "backspace") {
        Some(KeyCode::Backspace)
    } else if str_eq(t, "pageup") {
        Some(KeyCode::PageUp)
    } else if str_eq(t, "pagedown") {
        Some(KeyCode::PageDown)
    } else if str_eq(t, "home") {
        Some(KeyCode::Home)
    } else if str_eq(t, "end") {
        Some(KeyCode::End)
    } else if str_eq(t, "space") {
        Some(KeyCode::Char(' '))
    } else if str_eq(t, "delete") {
        Some(KeyCode::Delete)
    } else if str_eq(t, "insert") {
        Some(KeyCode::Insert)
    } else {
        let cs = str_chars(t);
        if cs.len() == 1 {
            Some(KeyCode::Char(cs[0]))
        } else {
            None
        }
    }
}

/// A binding token as it is matched: trimmed, then ASCII lower-cased.
pub open spec fn binding_token(part: Seq<char>) -> Seq<char> {
    spec_trim(part).map_values(|c: char| lower(c))
}

/// Reading the `+`-separated pieces of a binding left to right: the
/// modifiers named so far, the key token if one was named, and whether a
/// second key token made the binding invalid. Blank pieces are skipped.
pub open spec fn spec_binding_scan(parts: Seq<Seq<char>>) -> (KeyModifiers, Option<Seq<char>>, bool)
    decreases parts.len(),
{
    if parts.len() == 0 {
        (no_modifiers(), None, false)
    } else {
        let acc = spec_binding_scan(parts.drop_last());
        let part = parts.last();
        if acc.2 || spec_trim(part).len() == 0 {
            acc
        } else {
            let t = binding_token(part);
            match spec_modifier_token(t) {
                Some(m) => (spec_with_modifier(acc.0, m), acc.1, false),
                None => if acc.1 is Some {
                    (acc.0, acc.1, true)
                } else {
                    (acc.0, Some(t), false)
                },
            }
        }
    }
}

proof fn lemma_scan_failure_sticks(parts: Seq<Seq<char>>, i: int)
    requires
        0 <= i <= parts.len(),
        spec_binding_scan(parts.take(i)).2,
    ensures
        spec_binding_scan(parts).2,
    decreases parts.len() - i,
{
    if i < parts.len() {
        assert(parts.take(i + 1).drop_last() =~= parts.take(i));
        lemma_scan_failure_sticks(parts, i + 1);
    } else {
        assert(parts.take(i) =~= parts);
    }
}

/// The binding a setting such as `ctrl+shift+c` names: modifiers and one
/// key joined by `+`, in any ASCII case, blank pieces ignored; none when no
/// key, two keys, or an unknown key is named.
pub open spec fn spec_parse_key_binding(value: Seq<char>) -> Option<KeyBinding> {
    let acc = spec_binding_scan(spec_split(value, '+'));
    if acc.2 {
        None
    } else {
        match acc.1 {
            Some(t) => match spec_key_code_token(t) {
                Some(code) => Some(KeyBinding { code, modifiers: acc.0 }),
                None => None,
            },
            None => None,
        }
    }
}

/// The binding a setting such as `ctrl+shift+c` names (see
/// `spec_parse_key_binding`).
pub fn parse_key_binding(value: &str) -> (res: Option<KeyBinding>)
    ensures
        res == spec_parse_key_binding(value@),
{
    let chars = str_chars(value);
    let parts = split_chars(&chars, '+');
    let ghost views = char_views(parts@);
    let mut modifiers = KeyModifiers::none();
    let mut token: Option<String> = None;
    let mut i: usize = 0;
    proof {
        assert(views.take(0) =~= Seq::<Seq<char>>::empty());
    }
    while i < parts.len()
        invariant
            i <= parts@.len(),
            views == char_views(parts@),
            views == spec_split(value@, '+'),
            ({
                let acc = spec_binding_scan(views.take(i as int));
                &&& !acc.2
                &&& acc.0 == modifiers
                &&& match token {
                    Some(t) => acc.1 == Some(t@),
                    None => acc.1 is None,
                }
            }),
        decreases parts@.len() - i,
    {
        proof {
            assert(views.take(i + 1).drop_last() =~= views.take(i as int));
            assert(views.take(i + 1).last() == parts@[i as int]@);
        }
        let piece = parts[i].clone();
        assert(piece@ == parts@[i as int]@);
        let part = string_from_chars(piece);
        let trimmed = str_trim(part.as_str());
        if !trimmed.is_empty() {
            let lowered = str_to_ascii_lowercase(trimmed);
            assert(lowered@ == binding_token(views[i as int]));
            match modifier_token(lowered.as_str()) {
                Some(m) => {
                    modifiers = with_modifier(modifiers, m);
                },
                None => {
                    if token.is_some() {
                        proof {
                            lemma_scan_failure_sticks(views, i + 1);
                        }
                        return None;
                    }
                    token = Some(lowered);
                },
            }
        }
        i = i + 1;
    }
    proof {
        assert(views.take(parts@.len() as int) =~= views);
    }
    match token {
        Some(t) => match key_code_token(t.as_str()) {
            Some(code) => Some(KeyBinding { code, modifiers }),
            None => None,
        },
        None => None,
    }
}

/// The bindings a comma-separated list of pieces names, in order, pieces
/// that name none skipped.
pub open spec fn spec_parse_binding_list(parts: Seq<Seq<char>>) -> Seq<KeyBinding>
    decreases parts.len(),
{
    if parts.len() == 0 {
        Seq::empty()
    } else {
        let rest = spec_parse_binding_list(parts.drop_last());
        match spec_parse_key_binding(spec_trim(parts.last())) {
            Some(b) => rest.push(b),
            None => rest,
        }
    }
}

/// The bindings a setting such as `ctrl+esc, cmd+c` names, in order;
/// entries that name none are skipped.
pub fn parse_key_bindings(value: &str) -> (res: Vec<KeyBinding>)
    ensures
        res@ == spec_parse_binding_list(spec_split(value@, ',')),
{
    let chars = str_chars(value);
    let parts = split_chars(&chars, ',');
    let ghost views = char_views(parts@);
    let mut out: Vec<KeyBinding> = Vec::new();
    let mut i: usize = 0;
    proof {
        assert(views.take(0) =~= Seq::<Seq<char>>::empty());
    }
    while i < parts.len()
        invariant
            i <= parts@.len(),
            views == char_views(parts@),
            out@ == spec_parse_binding_list(views.take(i as int)),
        decreases parts@.len() - i,
    {
        proof {
            assert(views.take(i + 1).drop_last() =~= views.take(i as int));
            assert(views.take(i + 1).last() == parts@[i as int]@);
        }
        let part = string_from_chars(parts[i].clone());
        match parse_key_binding(str_trim(part.as_str())) {
            Some(b) => out.push(b),
            None => {},
        }
        i = i + 1;
    }
    proof {
        assert(views.take(parts@.len() as int) =~= views);
    }
    out
}


/// The binding that toggles scrollback unless settings name others:
/// Ctrl+Esc.
pub open spec fn spec_default_scroll_toggle_bindings() -> Seq<KeyBinding> {
    seq![KeyBinding { code: KeyCode::Esc, modifiers: KeyModifiers { control: true, ..no_modifiers() } }]
}

/// The binding that toggles scrollback unless settings name others.
pub fn default_scroll_toggle_bindings() -> (res: Vec<KeyBinding>)
    ensures
        res@ == spec_default_scroll_toggle_bindings(),
{
    let ctrl = KeyModifiers { control: true, ..KeyModifiers::none() };
    let v = vec![KeyBinding::new(KeyCode::Esc, ctrl)];
    proof {
        assert(v@ =~= spec_default_scroll_toggle_bindings());
    }
    v
}

/// The bindings that copy the selection in copy mode unless settings name
/// others: Cmd+C, Ctrl+Shift+C, Ctrl+Insert and Ctrl+C.
pub open spec fn spec_default_copy_shortcut_bindings() -> Seq<KeyBinding> {
    let ctrl = KeyModifiers { control: true, ..no_modifiers() };
    seq![
        KeyBinding { code: KeyCode::Char('c'), modifiers: KeyModifiers { super_key: true, ..no_modifiers() } },
        KeyBinding { code: KeyCode::Char('c'), modifiers: KeyModifiers { shift: true, ..ctrl } },
        KeyBinding { code: KeyCode::Insert, modifiers: ctrl },
        KeyBinding { code: KeyCode::Char('c'), modifiers: ctrl },
    ]
}

/// The bindings that copy the selection in copy mode unless settings name
/// others.
pub fn default_copy_shortcut_bindings() -> (res: Vec<KeyBinding>)
    ensures
        res@ == spec_default_copy_shortcut_bindings(),
{
    let ctrl = KeyModifiers { control: true, ..KeyModifiers::none() };
    let v = vec![
        KeyBinding::new(KeyCode::Char('c'), KeyModifiers { super_key: true, ..KeyModifiers::none() }),
        KeyBinding::new(KeyCode::Char('c'), KeyModifiers { shift: true, ..ctrl }),
        KeyBinding::new(KeyCode::Insert, ctrl),
        KeyBinding::new(KeyCode::Char('c'), ctrl),
    ];
    proof {
        assert(v@ =~= spec_default_copy_shortcut_bindings());
    }
    v
}

/// The texts of `items` joined with `sep` between them.
pub open spec fn spec_join(items: Seq<Seq<char>>, sep: Seq<char>) -> Seq<char>
    decreases items.len(),
{
    if items.len() == 0 {
        Seq::empty()
    } else if items.len() == 1 {
        items[0]
    } else {
        spec_join(items.drop_last(), sep) + sep + items.last()
    }
}

/// The views of a list of strings.
pub open spec fn string_views(v: Seq<String>) -> Seq<Seq<char>> {
    v.map_values(|s: String| s@)
}

fn join_strings(items: &Vec<String>, sep: &str) -> (res: String)
    ensures
        res@ == spec_join(string_views(items@), sep@),
{
    let ghost views = string_views(items@);
    let mut out = String::from_str("");
    let mut i: usize = 0;
    proof {
        reveal_strlit("");
        assert(views.take(0) =~= Seq::<Seq<char>>::empty());
    }
    while i < items.len()
        invariant
            i <= items@.len(),
            views == string_views(items@),
            out@ == spec_join(views.take(i as int), sep@),
        decreases items@.len() - i,
    {
        proof {
            assert(views.take(i + 1).drop_last() =~= views.take(i as int));
        }
        if i > 0 {
            out.append(sep);
        }
        out.append(items[i].as_str());
        proof {
            if i == 0 {
                assert(out@ =~= views.take(1)[0]);
            }
        }
        i = i + 1;
    }
    proof {
        assert(views.take(items@.len() as int) =~= views);
    }
    out
}

/// The bindings settings give a shortcut: those the environment setting
/// names when it is set, else those the configured list names (joined with
/// commas), else `defaults`; a setting that names none falls back to
/// `defaults` too.
pub open spec fn spec_bindings_from_settings(
    setting: Option<Seq<char>>,
    configured: Option<Seq<Seq<char>>>,
    defaults: Seq<KeyBinding>,
) -> Seq<KeyBinding> {
    let parsed = match setting {
        Some(v) => spec_parse_binding_list(spec_split(v, ',')),
        None => match configured {
            Some(list) => spec_parse_binding_list(spec_split(spec_join(list, ","@), ',')),
            None => Seq::empty(),
        },
    };
    if parsed.len() == 0 {
        defaults
    } else {
        parsed
    }
}

/// The bindings settings give a shortcut (see
/// `spec_bindings_from_settings`).
pub fn bindings_from_settings(setting: Option<String>, configured: Option<Vec<String>>, defaults: Vec<KeyBinding>) -> (res:
    Vec<KeyBinding>)
    ensures
        res@ == spec_bindings_from_settings(
            match setting {
                Some(s) => Some(s@),
                None => None,
            },
            match configured {
                Some(l) => Some(string_views(l@)),
                None => None,
            },
            defaults@,
        ),
{
    let parsed = match &setting {
        Some(value) => parse_key_bindings(value.as_str()),
        None => match &configured {
            Some(list) => {
                let joined = join_strings(list, ",");
                parse_key_bindings(joined.as_str())
            },
            None => Vec::new(),
        },
    };
    if parsed.len() == 0 {
        defaults
    } else {
        parsed
    }
}

/// The copy-mode key set a `BEACH_COPY_MODE_KEYS` setting picks: Emacs for
/// `emacs` in any ASCII case, Vi otherwise.
pub fn default_copy_mode_keyset(setting: Option<String>) -> (res: CopyModeKeySet)
    ensures
        res == (match setting {
            Some(v) if v@.map_values(|c: char| lower(c)) == "emacs"@ => CopyModeKeySet::Emacs,
            _ => CopyModeKeySet::Vi,
        }),
{
    match setting {
        Some(v) => {
            let lowered = str_to_ascii_lowercase(v.as_str());
            assert(lowered@ =~= v@.map_values(|c: char| lower(c)));
            if str_eq(lowered.as_str(), "emacs") {
                CopyModeKeySet::Emacs
            } else {
                CopyModeKeySet::Vi
            }
        },
        None => CopyModeKeySet::Vi,
    }
}

/// The upper-case ASCII letter form of `c`, as `char::to_ascii_uppercase`.
pub open spec fn upper(c: char) -> char {
    if 'a' <= c && c <= 'z' {
        ((c as u32) - 32) as char
    } else {
        c
    }
}

fn ascii_uppercase(c: char) -> (res: char)
    ensures
        res == upper(c),
{
    if 'a' <= c && c <= 'z' {
        let code: u32 = c as u32 - 32;
        char_from_ascii(code)
    } else {
        c
    }
}

/// How a binding's key is shown.
pub open spec fn spec_key_name(code: KeyCode) -> Seq<char> {
    match code {
        KeyCode::Esc => "ESC"@,
        KeyCode::Enter => "ENTER"@,
        KeyCode::Tab => "TAB"@,
        KeyCode::Backspace => "BACKSPACE"@,
        KeyCode::PageUp => "PAGEUP"@,
        KeyCode::PageDown => "PAGEDOWN"@,
        KeyCode::Home => "HOME"@,
        KeyCode::End => "END"@,
        KeyCode::Delete => "DELETE"@,
        KeyCode::Insert => "INSERT"@,
        KeyCode::Char(c) => seq![upper(c)],
        KeyCode::BackTab => "BACKTAB"@,
        KeyCode::Up => "UP"@,
        KeyCode::Down => "DOWN"@,
        KeyCode::Left => "LEFT"@,
        KeyCode::Right => "RIGHT"@,
        KeyCode::F(n) => "F("@ + decimal(n as nat) + ")"@,
        KeyCode::Other => "OTHER"@,
    }
}

fn key_name(code: KeyCode) -> (res: String)
    ensures
        res@ == spec_key_name(code),
{
    match code {
        KeyCode::Esc => String::from_str("ESC"),
        KeyCode::Enter => String::from_str("ENTER"),
        KeyCode::Tab => String::from_str("TAB"),
        KeyCode::Backspace => String::from_str("BACKSPACE"),
        KeyCode::PageUp => String::from_str("PAGEUP"),
        KeyCode::PageDown => String::from_str("PAGEDOWN"),
        KeyCode::Home => String::from_str("HOME"),
        KeyCode::End => String::from_str("END"),
        KeyCode::Delete => String::from_str("DELETE"),
        KeyCode::Insert => String::from_str("INSERT"),
        KeyCode::Char(c) => string_from_chars(vec![ascii_uppercase(c)]),
        KeyCode::BackTab => String::from_str("BACKTAB"),
        KeyCode::Up => String::from_str("UP"),
        KeyCode::Down => String::from_str("DOWN"),
        KeyCode::Left => String::from_str("LEFT"),
        KeyCode::Right => String::from_str("RIGHT"),
        KeyCode::F(n) => {
            let mut cs: Vec<char> = Vec::new();
            cs.push('F');
            cs.push('(');
            push_decimal(&mut cs, n as u64);
            cs.push(')');
            proof {
                reveal_strlit("F(");
                reveal_strlit(")");
                assert(cs@ =~= "F("@ + decimal(n as nat) + ")"@);
            }
            string_from_chars(cs)
        },
        KeyCode::Other => String::from_str("OTHER"),
    }
}

/// How a binding is shown: the held modifiers as `CTRL`, `ALT`, `SHIFT`,
/// `CMD` in that order, then the key, joined by `+`.
pub open spec fn spec_format_key_binding(b: KeyBinding) -> Seq<char> {
    (if b.modifiers.control {
        "CTRL+"@
    } else {
        ""@
    }) + (if b.modifiers.alt {
        "ALT+"@
    } else {
        ""@
    }) + (if b.modifiers.shift {
        "SHIFT+"@
    } else {
        ""@
    }) + (if b.modifiers.super_key {
        "CMD+"@
    } else {
        ""@
    }) + spec_key_name(b.code)
}

/// How a binding is shown (see `spec_format_key_binding`).
pub fn format_key_binding(binding: &KeyBinding) -> (res: String)
    ensures
        res@ == spec_format_key_binding(*binding),
{
    let mut out = String::from_str("");
    if binding.modifiers.control {
        out.append("CTRL+");
    }
    let ghost a = out@;
    if binding.modifiers.alt {
        out.append("ALT+");
    }
    let ghost b = out@;
    if binding.modifiers.shift {
        out.append("SHIFT+");
    }
    let ghost c = out@;
    if binding.modifiers.super_key {
        out.append("CMD+");
    }
    let ghost d = out@;
    let key = key_name(binding.code);
    out.append(key.as_str());
    proof {
        reveal_strlit("");
        assert(a =~= (if binding.modifiers.control { "CTRL+"@ } else { ""@ }));
        assert(b =~= a + (if binding.modifiers.alt { "ALT+"@ } else { ""@ }));
        assert(c =~= b + (if binding.modifiers.shift { "SHIFT+"@ } else { ""@ }));
        assert(d =~= c + (if binding.modifiers.super_key { "CMD+"@ } else { ""@ }));
    }
    out
}


/// A word motion in copy mode.
#[derive(Clone, Copy, Debug, PartialEq, Eq, Structural)]
pub enum WordMotion {
    NextStart,
    NextEnd,
    PrevStart,
}

/// What a key does in copy mode.
#[derive(Clone, Copy, Debug, PartialEq, Eq, Structural)]
pub enum CopyModeCommand {
    Move { rows: isize, cols: isize },
    MoveToLineStart,
    MoveToLineEnd,
    Page { delta: isize },
    HalfPage { delta: isize },
    JumpTop,
    JumpBottom,
    MoveWord(WordMotion),
    BeginSelection,
    ClearSelection,
    ToggleSelection,
    SetSelectionMode(SelectionMode),
    CopySelection,
    CopySelectionAndExit,
    Cancel,
    SetMode(CopyModeKeySet),
    Search(CopyModeSearchDirection),
    RepeatLastSearch(CopyModeSearchDirection),
}

/// Space starts a selection, or toggles the one there is.
pub open spec fn select_command(selection_active: bool) -> CopyModeCommand {
    if selection_active {
        CopyModeCommand::ToggleSelection
    } else {
        CopyModeCommand::BeginSelection
    }
}

fn select_command_for(selection_active: bool) -> (res: CopyModeCommand)
    ensures
        res == select_command(selection_active),
{
    if selection_active {
        CopyModeCommand::ToggleSelection
    } else {
        CopyModeCommand::BeginSelection
    }
}

/// What a key does in vi copy mode, after the keys every key set shares.
pub open spec fn spec_copy_mode_command_vi(selection_active: bool, key: KeyEvent) -> Option<CopyModeCommand> {
    if key.modifiers.control && key.code is Char {
        let c = lower(key.code->Char_0);
        if c == 'b' {
            Some(CopyModeCommand::Page { delta: -1isize })
        } else if c == 'f' {
            Some(CopyModeCommand::Page { delta: 1isize })
        } else if c == 'u' {
            Some(CopyModeCommand::HalfPage { delta: -1isize })
        } else if c == 'd' {
            Some(CopyModeCommand::HalfPage { delta: 1isize })
        } else if c == 'c' {
            Some(CopyModeCommand::Cancel)
        } else if c == 'v' {
            Some(CopyModeCommand::SetSelectionMode(SelectionMode::Block))
        } else {
            None
        }
    } else {
        match key.code {
            KeyCode::Char(ch) => {
                if ch == 'G' {
                    Some(CopyModeCommand::JumpBottom)
                } else if ch == 'N' {
                    Some(CopyModeCommand::RepeatLastSearch(CopyModeSearchDirection::Backward))
                } else if ch == '0' || ch == '^' {
                    Some(CopyModeCommand::MoveToLineStart)
                } else if ch == '$' {
                    Some(CopyModeCommand::MoveToLineEnd)
                } else if ch == 'V' {
                    Some(CopyModeCommand::SetSelectionMode(SelectionMode::Line))
                } else if ch == ' ' {
                    Some(select_command(selection_active))
                } else if ch == '/' {
                    Some(CopyModeCommand::Search(CopyModeSearchDirection::Forward))
                } else if ch == '?' {
                    Some(CopyModeCommand::Search(CopyModeSearchDirection::Backward))
                } else {
                    let c = lower(ch);
                    if c == 'h' {
                        Some(CopyModeCommand::Move { rows: 0isize, cols: -1isize })
                    } else if c == 'j' {
                        Some(CopyModeCommand::Move { rows: 1isize, cols: 0isize })
                    } else if c == 'k' {
                        Some(CopyModeCommand::Move { rows: -1isize, cols: 0isize })
                    } else if c == 'l' {
                        Some(CopyModeCommand::Move { rows: 0isize, cols: 1isize })
                    } else if c == 'g' {
                        Some(CopyModeCommand::JumpTop)
                    } else if c == 'w' {
                        Some(CopyModeCommand::MoveWord(WordMotion::NextStart))
                    } else if c == 'e' {
                        Some(CopyModeCommand::MoveWord(WordMotion::NextEnd))
                    } else if c == 'b' {
                        Some(CopyModeCommand::MoveWord(WordMotion::PrevStart))
                    } else if c == 'y' {
                        Some(CopyModeCommand::CopySelectionAndExit)
                    } else if c == 'v' {
                        Some(CopyModeCommand::ToggleSelection)
                    } else if c == 'q' {
                        Some(CopyModeCommand::Cancel)
                    } else if c == 'n' {
                        Some(CopyModeCommand::RepeatLastSearch(CopyModeSearchDirection::Forward))
                    } else {
                        None
                    }
                }
            },
            _ => None,
        }
    }
}

/// What a key does in vi copy mode (see `spec_copy_mode_command_vi`).
pub fn copy_mode_command_vi(selection_active: bool, key: &KeyEvent) -> (res: Option<CopyModeCommand>)
    ensures
        res == spec_copy_mode_command_vi(selection_active, *key),
{
    if key.modifiers.control {
        if let KeyCode::Char(ch) = key.code {
            let c = ascii_lowercase(ch);
            return if c == 'b' {
                Some(CopyModeCommand::Page { delta: -1isize })
            } else if c == 'f' {
                Some(CopyModeCommand::Page { delta: 1isize })
            } else if c == 'u' {
                Some(CopyModeCommand::HalfPage { delta: -1isize })
            } else if c == 'd' {
                Some(CopyModeCommand::HalfPage { delta: 1isize })
            } else if c == 'c' {
                Some(CopyModeCommand::Cancel)
            } else if c == 'v' {
                Some(CopyModeCommand::SetSelectionMode(SelectionMode::Block))
            } else {
                None
            };
        }
    }
    match key.code {
        KeyCode::Char(ch) => {
            if ch == 'G' {
                Some(CopyModeCommand::JumpBottom)
            } else if ch == 'N' {
                Some(CopyModeCommand::RepeatLastSearch(CopyModeSearchDirection::Backward))
            } else if ch == '0' || ch == '^' {
                Some(CopyModeCommand::MoveToLineStart)
            } else if ch == '$' {
                Some(CopyModeCommand::MoveToLineEnd)
            } else if ch == 'V' {
                Some(CopyModeCommand::SetSelectionMode(SelectionMode::Line))
            } else if ch == ' ' {
                Some(select_command_for(selection_active))
            } else if ch == '/' {
                Some(CopyModeCommand::Search(CopyModeSearchDirection::Forward))
            } else if ch == '?' {
                Some(CopyModeCommand::Search(CopyModeSearchDirection::Backward))
            } else {
                let c = ascii_lowercase(ch);
                if c == 'h' {
                    Some(CopyModeCommand::Move { rows: 0isize, cols: -1isize })
                } else if c == 'j' {
                    Some(CopyModeCommand::Move { rows: 1isize, cols: 0isize })
                } else if c == 'k' {
                    Some(CopyModeCommand::Move { rows: -1isize, cols: 0isize })
                } else if c == 'l' {
                    Some(CopyModeCommand::Move { rows: 0isize, cols: 1isize })
                } else if c == 'g' {
                    Some(CopyModeCommand::JumpTop)
                } else if c == 'w' {
                    Some(CopyModeCommand::MoveWord(WordMotion::NextStart))
                } else if c == 'e' {
                    Some(CopyModeCommand::MoveWord(WordMotion::NextEnd))
                } else if c == 'b' {
                    Some(CopyModeCommand::MoveWord(WordMotion::PrevStart))
                } else if c == 'y' {
                    Some(CopyModeCommand::CopySelectionAndExit)
                } else if c == 'v' {
                    Some(CopyModeCommand::ToggleSelection)
                } else if c == 'q' {
                    Some(CopyModeCommand::Cancel)
                } else if c == 'n' {
                    Some(CopyModeCommand::RepeatLastSearch(CopyModeSearchDirection::Forward))
                } else {
                    None
                }
            }
        },
        _ => None,
    }
}

/// What a key does in emacs copy mode, after the keys every key set shares.
pub open spec fn spec_copy_mode_command_emacs(selection_active: bool, key: KeyEvent) -> Option<CopyModeCommand> {
    if key.modifiers.control && key.code is Char {
        let c = lower(key.code->Char_0);
        if c == 'f' {
            Some(CopyModeCommand::Move { rows: 0isize, cols: 1isize })
        } else if c == 'b' {
            Some(CopyModeCommand::Move { rows: 0isize, cols: -1isize })
        } else if c == 'n' {
            Some(CopyModeCommand::Move { rows: 1isize, cols: 0isize })
        } else if c == 'p' {
            Some(CopyModeCommand::Move { rows: -1isize, cols: 0isize })
        } else if c == 'a' {
            Some(CopyModeCommand::MoveToLineStart)
        } else if c == 'e' {
            Some(CopyModeCommand::MoveToLineEnd)
        } else if c == 'v' {
            Some(CopyModeCommand::Page { delta: 1isize })
        } else if c == 'w' {
            Some(CopyModeCommand::CopySelectionAndExit)
        } else if c == 'y' {
            Some(CopyModeCommand::CopySelection)
        } else if c == 's' {
            Some(CopyModeCommand::Search(CopyModeSearchDirection::Forward))
        } else if c == 'r' {
            Some(CopyModeCommand::Search(CopyModeSearchDirection::Backward))
        } else if c == 'g' {
            Some(CopyModeCommand::Cancel)
        } else if c == ' ' {
            Some(select_command(selection_active))
        } else {
            None
        }
    } else if key.modifiers.alt && key.code is Char {
        let c = lower(key.code->Char_0);
        if c == 'f' {
            Some(CopyModeCommand::MoveWord(WordMotion::NextStart))
        } else if c == 'b' {
            Some(CopyModeCommand::MoveWord(WordMotion::PrevStart))
        } else if c == 'd' {
            Some(CopyModeCommand::MoveWord(WordMotion::NextEnd))
        } else if c == 'v' {
            Some(CopyModeCommand::Page { delta: -1isize })
        } else if c == 'w' {
            Some(CopyModeCommand::CopySelection)
        } else if c == 'y' {
            Some(CopyModeCommand::CopySelectionAndExit)
        } else {
            None
        }
    } else {
        match key.code {
            KeyCode::Char(' ') => Some(select_command(selection_active)),
            KeyCode::Char('y') => Some(CopyModeCommand::CopySelection),
            _ => None,
        }
    }
}

/// What a key does in emacs copy mode (see `spec_copy_mode_command_emacs`).
pub fn copy_mode_command_emacs(selection_active: bool, key: &KeyEvent) -> (res: Option<CopyModeCommand>)
    ensures
        res == spec_copy_mode_command_emacs(selection_active, *key),
{
    if key.modifiers.control {
        if let KeyCode::Char(ch) = key.code {
            let c = ascii_lowercase(ch);
            return if c == 'f' {
                Some(CopyModeCommand::Move { rows: 0isize, cols: 1isize })
            } else if c == 'b' {
                Some(CopyModeCommand::Move { rows: 0isize, cols: -1isize })
            } else if c == 'n' {
                Some(CopyModeCommand::Move { rows: 1isize, cols: 0isize })
            } else if c == 'p' {
                Some(CopyModeCommand::Move { rows: -1isize, cols: 0isize })
            } else if c == 'a' {
                Some(CopyModeCommand::MoveToLineStart)
            } else if c == 'e' {
                Some(CopyModeCommand::MoveToLineEnd)
            } else if c == 'v' {
                Some(CopyModeCommand::Page { delta: 1isize })
            } else if c == 'w' {
                Some(CopyModeCommand::CopySelectionAndExit)
            } else if c == 'y' {
                Some(CopyModeCommand::CopySelection)
            } else if c == 's' {
                Some(CopyModeCommand::Search(CopyModeSearchDirection::Forward))
            } else if c == 'r' {
                Some(CopyModeCommand::Search(CopyModeSearchDirection::Backward))
            } else if c == 'g' {
                Some(CopyModeCommand::Cancel)
            } else if c == ' ' {
                Some(select_command_for(selection_active))
            } else {
                None
            };
        }
    }
    if key.modifiers.alt {
        if let KeyCode::Char(ch) = key.code {
            let c = ascii_lowercase(ch);
            return if c == 'f' {
                Some(CopyModeCommand::MoveWord(WordMotion::NextStart))
            } else if c == 'b' {
                Some(CopyModeCommand::MoveWord(WordMotion::PrevStart))
            } else if c == 'd' {
                Some(CopyModeCommand::MoveWord(WordMotion::NextEnd))
            } else if c == 'v' {
                Some(CopyModeCommand::Page { delta: -1isize })
            } else if c == 'w' {
                Some(CopyModeCommand::CopySelection)
            } else if c == 'y' {
                Some(CopyModeCommand::CopySelectionAndExit)
            } else {
                None
            };
        }
    }
    match key.code {
        KeyCode::Char(' ') => Some(select_command_for(selection_active)),
        KeyCode::Char('y') => Some(CopyModeCommand::CopySelection),
        _ => None,
    }
}

/// What a key does in copy mode: Alt+y/c/v/e/]/} (copy and exit, clear,
/// vi keys, emacs keys, cancel) and Ctrl+G first, then Esc, Enter, the
/// arrows, Page Up/Down, Home and End, then the keys of the key set.
pub open spec fn spec_copy_mode_command_for_key(mode: CopyModeKeySet, selection_active: bool, key: KeyEvent) -> Option<
    CopyModeCommand,
> {
    let alt_cmd: Option<CopyModeCommand> = if key.modifiers.alt && key.code is Char {
        let c = lower(key.code->Char_0);
        if c == 'y' {
            Some(CopyModeCommand::CopySelectionAndExit)
        } else if c == 'c' {
            Some(CopyModeCommand::ClearSelection)
        } else if c == 'v' {
            Some(CopyModeCommand::SetMode(CopyModeKeySet::Vi))
        } else if c == 'e' {
            Some(CopyModeCommand::SetMode(CopyModeKeySet::Emacs))
        } else if c == ']' || c == '}' {
            Some(CopyModeCommand::Cancel)
        } else {
            None
        }
    } else {
        None
    };
    if alt_cmd is Some {
        alt_cmd
    } else if key.modifiers.control && key.code is Char && lower(key.code->Char_0) == 'g' {
        Some(CopyModeCommand::Cancel)
    } else {
        match key.code {
            KeyCode::Esc => Some(CopyModeCommand::Cancel),
            KeyCode::Enter => Some(CopyModeCommand::CopySelectionAndExit),
            KeyCode::Up => Some(CopyModeCommand::Move { rows: -1isize, cols: 0isize }),
            KeyCode::Down => Some(CopyModeCommand::Move { rows: 1isize, cols: 0isize }),
            KeyCode::Left => Some(CopyModeCommand::Move { rows: 0isize, cols: -1isize }),
            KeyCode::Right => Some(CopyModeCommand::Move { rows: 0isize, cols: 1isize }),
            KeyCode::PageUp => Some(CopyModeCommand::Page { delta: -1isize }),
            KeyCode::PageDown => Some(CopyModeCommand::Page { delta: 1isize }),
            KeyCode::Home => Some(CopyModeCommand::MoveToLineStart),
            KeyCode::End => Some(CopyModeCommand::MoveToLineEnd),
            _ => match mode {
                CopyModeKeySet::Vi => spec_copy_mode_command_vi(selection_active, key),
                CopyModeKeySet::Emacs => spec_copy_mode_command_emacs(selection_active, key),
            },
        }
    }
}

/// What a key does in copy mode (see `spec_copy_mode_command_for_key`).
pub fn copy_mode_command_for_key(mode: CopyModeKeySet, selection_active: bool, key: &KeyEvent) -> (res: Option<
    CopyModeCommand,
>)
    ensures
        res == spec_copy_mode_command_for_key(mode, selection_active, *key),
{
    if key.modifiers.alt {
        if let KeyCode::Char(ch) = key.code {
            let c = ascii_lowercase(ch);
            if c == 'y' {
                return Some(CopyModeCommand::CopySelectionAndExit);
            } else if c == 'c' {
                return Some(CopyModeCommand::ClearSelection);
            } else if c == 'v' {
                return Some(CopyModeCommand::SetMode(CopyModeKeySet::Vi));
            } else if c == 'e' {
                return Some(CopyModeCommand::SetMode(CopyModeKeySet::Emacs));
            } else if c == ']' || c == '}' {
                return Some(CopyModeCommand::Cancel);
            }
        }
    }
    if key.modifiers.control {
        if let KeyCode::Char(ch) = key.code {
            if ascii_lowercase(ch) == 'g' {
                return Some(CopyModeCommand::Cancel);
            }
        }
    }
    match key.code {
        KeyCode::Esc => Some(CopyModeCommand::Cancel),
        KeyCode::Enter => Some(CopyModeCommand::CopySelectionAndExit),
        KeyCode::Up => Some(CopyModeCommand::Move { rows: -1isize, cols: 0isize }),
        KeyCode::Down => Some(CopyModeCommand::Move { rows: 1isize, cols: 0isize }),
        KeyCode::Left => Some(CopyModeCommand::Move { rows: 0isize, cols: -1isize }),
        KeyCode::Right => Some(CopyModeCommand::Move { rows: 0isize, cols: 1isize }),
        KeyCode::PageUp => Some(CopyModeCommand::Page { delta: -1isize }),
        KeyCode::PageDown => Some(CopyModeCommand::Page { delta: 1isize }),
        KeyCode::Home => Some(CopyModeCommand::MoveToLineStart),
        KeyCode::End => Some(CopyModeCommand::MoveToLineEnd),
        _ => match mode {
            CopyModeKeySet::Vi => copy_mode_command_vi(selection_active, key),
            CopyModeKeySet::Emacs => copy_mode_command_emacs(selection_active, key),
        },
    }
}


/// ESC `[` followed by the final byte `f`: an ANSI control sequence with
/// no parameter.
pub open spec fn csi(f: u8) -> Seq<u8> {
    seq![0x1bu8, 0x5bu8, f]
}

/// ESC `[` `n` `~`: the VT220 editing-key sequence numbered `n` (an ASCII
/// digit).
pub open spec fn csi_tilde(n: u8) -> Seq<u8> {
    seq![0x1bu8, 0x5bu8, n, 0x7eu8]
}

/// Named keys send their ANSI sequences whatever modifiers are held: the
/// cursor keys ESC [ A (up), B (down), C (right), D (left); Home ESC [ H and
/// End ESC [ F; Insert, Delete, Page Up and Page Down ESC [ 2 ~, 3 ~, 5 ~
/// and 6 ~; Enter a line feed, Tab a tab, Backspace DEL and Escape ESC.
pub proof fn law_named_keys_send_ansi_sequences(key: KeyEvent)
    ensures
        key.code == KeyCode::Up ==> spec_encode_key_event(key) == Some(csi(0x41)),
        key.code == KeyCode::Down ==> spec_encode_key_event(key) == Some(csi(0x42)),
        key.code == KeyCode::Right ==> spec_encode_key_event(key) == Some(csi(0x43)),
        key.code == KeyCode::Left ==> spec_encode_key_event(key) == Some(csi(0x44)),
        key.code == KeyCode::Home ==> spec_encode_key_event(key) == Some(csi(0x48)),
        key.code == KeyCode::End ==> spec_encode_key_event(key) == Some(csi(0x46)),
        key.code == KeyCode::Insert ==> spec_encode_key_event(key) == Some(csi_tilde(0x32)),
        key.code == KeyCode::Delete ==> spec_encode_key_event(key) == Some(csi_tilde(0x33)),
        key.code == KeyCode::PageUp ==> spec_encode_key_event(key) == Some(csi_tilde(0x35)),
        key.code == KeyCode::PageDown ==> spec_encode_key_event(key) == Some(csi_tilde(0x36)),
        key.code == KeyCode::Enter ==> spec_encode_key_event(key) == Some(seq![0x0au8]),
        key.code == KeyCode::Tab ==> spec_encode_key_event(key) == Some(seq![0x09u8]),
        key.code == KeyCode::Backspace ==> spec_encode_key_event(key) == Some(seq![0x7fu8]),
        key.code == KeyCode::Esc ==> spec_encode_key_event(key) == Some(seq![0x1bu8]),
{
}

/// Whether `code` is a key other than a character that the encoder knows.
pub open spec fn is_named_key(code: KeyCode) -> bool {
    ||| code == KeyCode::Up
    ||| code == KeyCode::Down
    ||| code == KeyCode::Right
    ||| code == KeyCode::Left
    ||| code == KeyCode::Home
    ||| code == KeyCode::End
    ||| code == KeyCode::Insert
    ||| code == KeyCode::Delete
    ||| code == KeyCode::PageUp
    ||| code == KeyCode::PageDown
    ||| code == KeyCode::Enter
    ||| code == KeyCode::Tab
    ||| code == KeyCode::Backspace
    ||| code == KeyCode::Esc
}

/// Distinct named keys send distinct bytes, so the host can tell every
/// one of them apart (no arrow is taken for another).
pub proof fn law_named_keys_are_distinguishable(a: KeyEvent, b: KeyEvent)
    requires
        is_named_key(a.code),
        is_named_key(b.code),
        spec_encode_key_event(a) == spec_encode_key_event(b),
    ensures
        a.code == b.code,
{
    law_named_keys_send_ansi_sequences(a);
    law_named_keys_send_ansi_sequences(b);
    let ea = spec_encode_key_event(a)->0;
    let eb = spec_encode_key_event(b)->0;
    assert(ea.len() == eb.len());
    if ea.len() == 3 {
        assert(ea[2] == eb[2]);
    } else if ea.len() == 4 {
        assert(ea[2] == eb[2]);
    } else {
        assert(ea[0] == eb[0]);
    }
}

/// Typed characters: with Control, an ASCII letter (either case) sends its
/// control code, the letter's position in the alphabet (so `c` sends 3),
/// and other characters send nothing; without Control an ASCII character
/// sends itself. Alt puts ESC before the byte and nothing else does.
pub proof fn law_typed_characters(key: KeyEvent, c: char)
    requires
        key.code == KeyCode::Char(c),
    ensures
        key.modifiers.control && 'a' <= lower(c) <= 'z' ==> (spec_encode_key_event(key) matches Some(b) && b.last()
            == (lower(c) as u32) - ('a' as u32) + 1 && 1 <= b.last() <= 26),
        key.modifiers.control && !('a' <= lower(c) <= 'z') ==> spec_encode_key_event(key) is None,
        !key.modifiers.control && (c as u32) < 0x80 ==> (spec_encode_key_event(key) matches Some(b) && b.last() == c
            as u32),
        spec_encode_key_event(key) matches Some(b) ==> b.len() == (if key.modifiers.alt {
            2int
        } else {
            1int
        }) && (key.modifiers.alt ==> b[0] == 0x1bu8),
{
}

/// The xterm number of a mouse button: left 0, middle 1, right 2.
pub open spec fn xterm_button(b: MouseButton) -> nat {
    match b {
        MouseButton::Left => 0nat,
        MouseButton::Middle => 1nat,
        MouseButton::Right => 2nat,
    }
}

/// The xterm modifier bits of a mouse report: Shift 4, Alt (Meta) 8,
/// Control 16.
pub open spec fn xterm_modifier_bits(m: KeyModifiers) -> nat {
    (if m.shift {
        4nat
    } else {
        0nat
    }) + (if m.alt {
        8nat
    } else {
        0nat
    }) + (if m.control {
        16nat
    } else {
        0nat
    })
}

/// The xterm SGR event code and final character of a mouse event, before
/// modifiers: a press reports its button with `M`, a release 3 with `m`,
/// motion with a button held adds 32 to it, the wheel reports 64 (up) and
/// 65 (down); other events are not reported.
pub open spec fn xterm_event(kind: MouseEventKind) -> Option<(nat, char)> {
    match kind {
        MouseEventKind::Down(b) => Some((xterm_button(b), 'M')),
        MouseEventKind::Up(_) => Some((3nat, 'm')),
        MouseEventKind::Drag(b) => Some((32 + xterm_button(b), 'M')),
        MouseEventKind::ScrollUp => Some((64nat, 'M')),
        MouseEventKind::ScrollDown => Some((65nat, 'M')),
        _ => None,
    }
}

/// An SGR report coordinate: one-based, at most 65535.
pub open spec fn sgr_coordinate(v: u16) -> nat {
    if v < 0xffff {
        (v + 1) as nat
    } else {
        0xffffnat
    }
}

/// Mouse events are reported as xterm SGR reports: ESC `[<`, the event
/// code with the modifier bits added, `;`, the one-based column, `;`, the
/// one-based row and the final character.
pub proof fn law_mouse_reports_follow_xterm_sgr(mouse: MouseEvent)
    ensures
        spec_encode_mouse_event(mouse) == match xterm_event(mouse.kind) {
            Some((code, f)) => Some(
                "\x1b[<"@ + decimal(code + xterm_modifier_bits(mouse.modifiers)) + ";"@ + decimal(
                    sgr_coordinate(mouse.column),
                ) + ";"@ + decimal(sgr_coordinate(mouse.row)) + seq![f],
            ),
            None => None,
        },
{
    match mouse.kind {
        MouseEventKind::Down(b) => {},
        MouseEventKind::Drag(b) => {},
        _ => {},
    }
}

/// The button codes relate as xterm has them: each button has its own
/// code, right is 2, dragging adds 32 to the press code, and the two wheel
/// directions have different codes, up below down.
pub proof fn law_mouse_codes_are_distinct(a: MouseButton, b: MouseButton)
    ensures
        a != b ==> spec_mouse_button_code(a) != spec_mouse_button_code(b),
        spec_mouse_button_code(MouseButton::Right) == 2,
        (spec_mouse_base(MouseEventKind::Drag(a))->0).0 == (spec_mouse_base(MouseEventKind::Down(a))->0).0 + 32,
        spec_mouse_base(MouseEventKind::ScrollUp) == Some((64u16, 'M')),
        spec_mouse_base(MouseEventKind::ScrollDown) == Some((65u16, 'M')),
{
}

/// The key a binding names is the key whose shown name it is: a named key
/// shown by `format_key_binding` (for example `PAGEDOWN`) parses back, in
/// lower case, to that same key.
pub proof fn law_key_names_parse_back(code: KeyCode)
    requires
        code == KeyCode::Esc || code == KeyCode::Enter || code == KeyCode::Tab || code == KeyCode::Backspace || code
            == KeyCode::PageUp || code == KeyCode::PageDown || code == KeyCode::Home || code == KeyCode::End || code
            == KeyCode::Delete || code == KeyCode::Insert,
    ensures
        spec_key_code_token(spec_key_name(code).map_values(|c: char| lower(c))) == Some(code),
{
    reveal_strlit("ESC");
    reveal_strlit("ENTER");
    reveal_strlit("TAB");
    reveal_strlit("BACKSPACE");
    reveal_strlit("PAGEUP");
    reveal_strlit("PAGEDOWN");
    reveal_strlit("HOME");
    reveal_strlit("END");
    reveal_strlit("DELETE");
    reveal_strlit("INSERT");
    reveal_strlit("esc");
    reveal_strlit("escape");
    reveal_strlit("enter");
    reveal_strlit("return");
    reveal_strlit("tab");
    reveal_strlit("backspace");
    reveal_strlit("pageup");
    reveal_strlit("pagedown");
    reveal_strlit("home");
    reveal_strlit("end");
    reveal_strlit("space");
    reveal_strlit("delete");
    reveal_strlit("insert");
    let t = spec_key_name(code).map_values(|c: char| lower(c));
    if code == KeyCode::Esc {
        assert(t =~= "esc"@);
    } else if code == KeyCode::Enter {
        assert(t =~= "enter"@);
        assert(t.len() != "esc"@.len());
        assert(t.len() != "escape"@.len());
    } else if code == KeyCode::Tab {
        assert(t =~= "tab"@);
        assert(t[0] != "esc"@[0]);
        assert(t.len() != "escape"@.len());
        assert(t.len() != "enter"@.len());
        assert(t.len() != "return"@.len());
    } else if code == KeyCode::Backspace {
        assert(t =~= "backspace"@);
        assert(t.len() != "esc"@.len());
        assert(t.len() != "escape"@.len());
        assert(t.len() != "enter"@.len());
        assert(t.len() != "return"@.len());
        assert(t.len() != "tab"@.len());
    } else if code == KeyCode::PageUp {
        assert(t =~= "pageup"@);
        assert(t.len() != "esc"@.len());
        assert(t[0] != "escape"@[0]);
        assert(t.len() != "enter"@.len());
        assert(t[0] != "return"@[0]);
        assert(t.len() != "tab"@.len());
        assert(t.len() != "backspace"@.len());
    } else if code == KeyCode::PageDown {
        assert(t =~= "pagedown"@);
        assert(t.len() != "esc"@.len());
        assert(t.len() != "escape"@.len());
        assert(t.len() != "enter"@.len());
        assert(t.len() != "return"@.len());
        assert(t.len() != "tab"@.len());
        assert(t.len() != "backspace"@.len());
        assert(t.len() != "pageup"@.len());
    } else if code == KeyCode::Home {
        assert(t =~= "home"@);
        assert(t.len() != "esc"@.len());
        assert(t.len() != "escape"@.len());
        assert(t.len() != "enter"@.len());
        assert(t.len() != "return"@.len());
        assert(t.len() != "tab"@.len());
        assert(t.len() != "backspace"@.len());
        assert(t.len() != "pageup"@.len());
        assert(t.len() != "pagedown"@.len());
    } else if code == KeyCode::End {
        assert(t =~= "end"@);
        assert(t[1] != "esc"@[1]);
        assert(t.len() != "escape"@.len());
        assert(t.len() != "enter"@.len());
        assert(t.len() != "return"@.len());
        assert(t[0] != "tab"@[0]);
        assert(t.len() != "backspace"@.len());
        assert(t.len() != "pageup"@.len());
        assert(t.len() != "pagedown"@.len());
        assert(t.len() != "home"@.len());
    } else if code == KeyCode::Delete {
        assert(t =~= "delete"@);
        assert(t.len() != "esc"@.len());
        assert(t[0] != "escape"@[0]);
        assert(t.len() != "enter"@.len());
        assert(t[0] != "return"@[0]);
        assert(t.len() != "tab"@.len());
        assert(t.len() != "backspace"@.len());
        assert(t[0] != "pageup"@[0]);
        assert(t.len() != "pagedown"@.len());
        assert(t.len() != "home"@.len());
        assert(t.len() != "end"@.len());
        assert(t.len() != "space"@.len());
    } else {
        assert(t =~= "insert"@);
        assert(t.len() != "esc"@.len());
        assert(t[0] != "escape"@[0]);
        assert(t.len() != "enter"@.len());
        assert(t[0] != "return"@[0]);
        assert(t.len() != "tab"@.len());
        assert(t.len() != "backspace"@.len());
        assert(t[0] != "pageup"@[0]);
        assert(t.len() != "pagedown"@.len());
        assert(t.len() != "home"@.len());
        assert(t.len() != "end"@.len());
        assert(t.len() != "space"@.len());
        assert(t[0] != "delete"@[0]);
    }
}


/// A one-character binding token names that character's key, whatever the
/// character.
pub proof fn law_single_character_tokens(c: char)
    ensures
        spec_key_code_token(seq![c]) == Some(KeyCode::Char(c)),
{
    let t = seq![c];
    reveal_strlit("esc");
    assert(t.len() != "esc"@.len());
    reveal_strlit("escape");
    assert(t.len() != "escape"@.len());
    reveal_strlit("enter");
    assert(t.len() != "enter"@.len());
    reveal_strlit("return");
    assert(t.len() != "return"@.len());
    reveal_strlit("tab");
    assert(t.len() != "tab"@.len());
    reveal_strlit("backspace");
    assert(t.len() != "backspace"@.len());
    reveal_strlit("pageup");
    assert(t.len() != "pageup"@.len());
    reveal_strlit("pagedown");
    assert(t.len() != "pagedown"@.len());
    reveal_strlit("home");
    assert(t.len() != "home"@.len());
    reveal_strlit("end");
    assert(t.len() != "end"@.len());
    reveal_strlit("space");
    assert(t.len() != "space"@.len());
    reveal_strlit("delete");
    assert(t.len() != "delete"@.len());
    reveal_strlit("insert");
    assert(t.len() != "insert"@.len());
}

/// How `format_key_binding` shows a modifier.
pub open spec fn shown_modifier(m: ModifierName) -> Seq<char> {
    match m {
        ModifierName::Control => "CTRL"@,
        ModifierName::Alt => "ALT"@,
        ModifierName::Shift => "SHIFT"@,
        ModifierName::Super => "CMD"@,
    }
}

/// A modifier as bindings are shown parses back, in lower case, to that
/// modifier; and the spelled-out aliases name the same modifiers
/// (`control` Control, `option` and `opt` Alt, `super` and `command`
/// Super), so distinct modifiers are never confused.
pub proof fn law_modifier_names_parse_back(m: ModifierName)
    ensures
        spec_modifier_token(shown_modifier(m).map_values(|c: char| lower(c))) == Some(m),
        spec_modifier_token("control"@) == Some(ModifierName::Control),
        spec_modifier_token("option"@) == Some(ModifierName::Alt),
        spec_modifier_token("opt"@) == Some(ModifierName::Alt),
        spec_modifier_token("super"@) == Some(ModifierName::Super),
        spec_modifier_token("command"@) == Some(ModifierName::Super),
{
    reveal_strlit("CTRL");
    reveal_strlit("ALT");
    reveal_strlit("SHIFT");
    reveal_strlit("CMD");
    reveal_strlit("ctrl");
    reveal_strlit("control");
    reveal_strlit("alt");
    reveal_strlit("option");
    reveal_strlit("opt");
    reveal_strlit("shift");
    reveal_strlit("super");
    reveal_strlit("cmd");
    reveal_strlit("command");
    let t = shown_modifier(m).map_values(|c: char| lower(c));
    match m {
        ModifierName::Control => {
            assert(t =~= "ctrl"@);
        },
        ModifierName::Alt => {
            assert(t =~= "alt"@);
            assert(t.len() != "ctrl"@.len());
            assert(t.len() != "control"@.len());
        },
        ModifierName::Shift => {
            assert(t =~= "shift"@);
            assert(t.len() != "ctrl"@.len());
            assert(t.len() != "control"@.len());
            assert(t.len() != "alt"@.len());
            assert(t.len() != "option"@.len());
            assert(t.len() != "opt"@.len());
        },
        ModifierName::Super => {
            assert(t =~= "cmd"@);
            assert(t.len() != "ctrl"@.len());
            assert(t.len() != "control"@.len());
            assert(t[0] != "alt"@[0]);
            assert(t.len() != "option"@.len());
            assert(t[0] != "opt"@[0]);
            assert(t.len() != "shift"@.len());
            assert(t.len() != "super"@.len());
        },
    }
    assert("control"@.len() != "ctrl"@.len());
    assert("option"@.len() != "ctrl"@.len());
    assert("option"@.len() != "control"@.len());
    assert("option"@.len() != "alt"@.len());
    assert("opt"@.len() != "ctrl"@.len());
    assert("opt"@.len() != "control"@.len());
    assert("opt"@[0] != "alt"@[0]);
    assert("super"@.len() != "ctrl"@.len());
    assert("super"@.len() != "control"@.len());
    assert("super"@.len() != "alt"@.len());
    assert("super"@.len() != "option"@.len());
    assert("super"@.len() != "opt"@.len());
    assert("super"@[1] != "shift"@[1]);
    assert("command"@[0] != "control"@[0] || "command"@[2] != "control"@[2]);
    assert("command"@.len() != "ctrl"@.len());
    assert("command"@.len() != "alt"@.len());
    assert("command"@.len() != "option"@.len());
    assert("command"@.len() != "opt"@.len());
    assert("command"@.len() != "shift"@.len());
    assert("command"@.len() != "super"@.len());
    assert("command"@.len() != "cmd"@.len());
}


/// Naming a modifier in a binding holds that modifier and changes no other.
pub proof fn law_modifier_sets_its_own_flag(m: KeyModifiers, name: ModifierName)
    ensures
        ({
            let r = spec_with_modifier(m, name);
            &&& r.control == (m.control || name == ModifierName::Control)
            &&& r.alt == (m.alt || name == ModifierName::Alt)
            &&& r.shift == (m.shift || name == ModifierName::Shift)
            &&& r.super_key == (m.super_key || name == ModifierName::Super)
            &&& r.hyper == m.hyper
            &&& r.meta == m.meta
        }),
{
}

/// Picking a shortcut's bindings: an environment setting wins over the
/// configured list whatever that list holds, the result is always either
/// the defaults or bindings parsed from the settings, and it is never
/// empty when the defaults are not.
pub proof fn law_settings_pick_bindings(
    setting: Option<Seq<char>>,
    configured: Option<Seq<Seq<char>>>,
    other: Option<Seq<Seq<char>>>,
    defaults: Seq<KeyBinding>,
)
    ensures
        setting is Some ==> spec_bindings_from_settings(setting, configured, defaults) == spec_bindings_from_settings(
            setting,
            other,
            defaults,
        ),
        setting is None && configured is None ==> spec_bindings_from_settings(setting, configured, defaults)
            == defaults,
        defaults.len() > 0 ==> spec_bindings_from_settings(setting, configured, defaults).len() > 0,
{
}

} // verus!

use beach::client::grid_renderer::SelectionMode;
use beach::client::terminal::keys::{
    bindings_from_settings, copy_mode_command_for_key, default_copy_mode_keyset,
    default_copy_shortcut_bindings, default_scroll_toggle_bindings, encode_key_event,
    encode_mouse_event, format_key_binding, is_copy_shortcut, parse_key_binding,
    parse_key_bindings, CopyModeCommand, KeyBinding, KeyCode, KeyEvent, KeyEventKind,
    KeyModifiers, MouseButton, MouseEvent, MouseEventKind, WordMotion,
};
use beach::client::terminal::{CopyModeKeySet, CopyModeSearchDirection};

fn mods(ctrl: bool, alt: bool, shift: bool, cmd: bool) -> KeyModifiers {
    KeyModifiers {
        shift,
        control: ctrl,
        alt,
        super_key: cmd,
        hyper: false,
        meta: false,
    }
}

fn none() -> KeyModifiers {
    KeyModifiers::none()
}

fn press(code: KeyCode, modifiers: KeyModifiers) -> KeyEvent {
    KeyEvent {
        code,
        modifiers,
        kind: KeyEventKind::Press,
    }
}

#[test]
fn characters_encode_as_bytes() {
    assert_eq!(encode_key_event(press(KeyCode::Char('a'), none())), Some(vec![b'a']));
    assert_eq!(encode_key_event(press(KeyCode::Char('a'), mods(false, true, false, false))), Some(vec![0x1b, b'a']));
    assert_eq!(encode_key_event(press(KeyCode::Char('c'), mods(true, false, false, false))), Some(vec![3]));
    assert_eq!(encode_key_event(press(KeyCode::Char('C'), mods(true, false, false, false))), Some(vec![3]));
    assert_eq!(encode_key_event(press(KeyCode::Char('u'), mods(true, true, false, false))), Some(vec![0x1b, 21]));
    assert_eq!(encode_key_event(press(KeyCode::Char('1'), mods(true, false, false, false))), None);
    assert_eq!(encode_key_event(press(KeyCode::Char('é'), none())), Some(vec![0xe9]));
}

#[test]
fn named_keys_encode_as_sequences() {
    assert_eq!(encode_key_event(press(KeyCode::Enter, none())), Some(vec![b'\n']));
    assert_eq!(encode_key_event(press(KeyCode::Tab, none())), Some(vec![b'\t']));
    assert_eq!(encode_key_event(press(KeyCode::Backspace, none())), Some(vec![0x7f]));
    assert_eq!(encode_key_event(press(KeyCode::Esc, none())), Some(vec![0x1b]));
    assert_eq!(encode_key_event(press(KeyCode::Up, none())), Some(b"\x1b[A".to_vec()));
    assert_eq!(encode_key_event(press(KeyCode::Left, none())), Some(b"\x1b[D".to_vec()));
    assert_eq!(encode_key_event(press(KeyCode::End, none())), Some(b"\x1b[F".to_vec()));
    assert_eq!(encode_key_event(press(KeyCode::PageDown, none())), Some(b"\x1b[6~".to_vec()));
    assert_eq!(encode_key_event(press(KeyCode::Insert, none())), Some(b"\x1b[2~".to_vec()));
    assert_eq!(encode_key_event(press(KeyCode::F(1), none())), None);
    assert_eq!(encode_key_event(press(KeyCode::BackTab, none())), None);
}

#[test]
fn mouse_events_encode_as_sgr_reports() {
    let down = MouseEvent {
        kind: MouseEventKind::Down(MouseButton::Left),
        column: 4,
        row: 9,
        modifiers: none(),
    };
    assert_eq!(encode_mouse_event(&down), Some(b"\x1b[<0;5;10M".to_vec()));
    let up = MouseEvent {
        kind: MouseEventKind::Up(MouseButton::Right),
        ..down
    };
    assert_eq!(encode_mouse_event(&up), Some(b"\x1b[<3;5;10m".to_vec()));
    let drag = MouseEvent {
        kind: MouseEventKind::Drag(MouseButton::Middle),
        modifiers: mods(true, true, true, false),
        ..down
    };
    assert_eq!(encode_mouse_event(&drag), Some(b"\x1b[<61;5;10M".to_vec()));
    let scroll = MouseEvent {
        kind: MouseEventKind::ScrollDown,
        column: u16::MAX,
        row: 0,
        modifiers: none(),
    };
    assert_eq!(encode_mouse_event(&scroll), Some(b"\x1b[<65;65535;1M".to_vec()));
    let moved = MouseEvent {
        kind: MouseEventKind::Moved,
        ..down
    };
    assert_eq!(encode_mouse_event(&moved), None);
}

#[test]
fn copy_shortcuts() {
    assert!(is_copy_shortcut(&press(KeyCode::Char('c'), mods(false, false, false, true))));
    assert!(is_copy_shortcut(&press(KeyCode::Char('C'), mods(true, false, true, false))));
    assert!(is_copy_shortcut(&press(KeyCode::Insert, mods(true, false, false, false))));
    assert!(!is_copy_shortcut(&press(KeyCode::Char('c'), mods(true, false, false, false))));
    assert!(!is_copy_shortcut(&press(KeyCode::Char('x'), mods(false, false, false, true))));
}

#[test]
fn bindings_parse_modifiers_and_one_key() {
    assert_eq!(
        parse_key_binding("Ctrl + Shift + C"),
        Some(KeyBinding::new(KeyCode::Char('c'), mods(true, false, true, false)))
    );
    assert_eq!(
        parse_key_binding("cmd+esc"),
        Some(KeyBinding::new(KeyCode::Esc, mods(false, false, false, true)))
    );
    assert_eq!(
        parse_key_binding("option+space"),
        Some(KeyBinding::new(KeyCode::Char(' '), mods(false, true, false, false)))
    );
    assert_eq!(parse_key_binding("pageup"), Some(KeyBinding::new(KeyCode::PageUp, none())));
    assert_eq!(parse_key_binding("ctrl+a+b"), None);
    assert_eq!(parse_key_binding("ctrl+shift"), None);
    assert_eq!(parse_key_binding("ctrl+f12"), None);
    assert_eq!(parse_key_binding(""), None);
    assert_eq!(
        parse_key_binding("++ctrl++x"),
        Some(KeyBinding::new(KeyCode::Char('x'), mods(true, false, false, false)))
    );
}

#[test]
fn binding_lists_skip_invalid_entries() {
    assert_eq!(
        parse_key_bindings("ctrl+esc, bogus-key ,cmd+c"),
        vec![
            KeyBinding::new(KeyCode::Esc, mods(true, false, false, false)),
            KeyBinding::new(KeyCode::Char('c'), mods(false, false, false, true)),
        ]
    );
    assert!(parse_key_bindings("").is_empty());
}

#[test]
fn settings_override_configuration_and_defaults() {
    let defaults = default_scroll_toggle_bindings();
    assert_eq!(defaults, vec![KeyBinding::new(KeyCode::Esc, mods(true, false, false, false))]);
    assert_eq!(
        bindings_from_settings(Some("alt+s".to_string()), Some(vec!["ctrl+t".to_string()]), defaults.clone()),
        vec![KeyBinding::new(KeyCode::Char('s'), mods(false, true, false, false))]
    );
    assert_eq!(
        bindings_from_settings(None, Some(vec!["ctrl+t".to_string(), "f1".to_string(), "home".to_string()]), defaults.clone()),
        vec![
            KeyBinding::new(KeyCode::Char('t'), mods(true, false, false, false)),
            KeyBinding::new(KeyCode::Home, none()),
        ]
    );
    assert_eq!(bindings_from_settings(Some("nonsense".to_string()), None, defaults.clone()), defaults);
    assert_eq!(bindings_from_settings(None, None, defaults.clone()), defaults);
    assert_eq!(default_copy_shortcut_bindings().len(), 4);
}

#[test]
fn bindings_format_for_the_status_line() {
    assert_eq!(format_key_binding(&KeyBinding::new(KeyCode::Esc, mods(true, false, false, false))), "CTRL+ESC");
    assert_eq!(
        format_key_binding(&KeyBinding::new(KeyCode::Char('c'), mods(true, true, true, true))),
        "CTRL+ALT+SHIFT+CMD+C"
    );
    assert_eq!(format_key_binding(&KeyBinding::new(KeyCode::F(12), none())), "F(12)");
    assert_eq!(format_key_binding(&KeyBinding::new(KeyCode::Up, none())), "UP");
}

#[test]
fn bindings_match_presses_with_exact_modifiers() {
    let b = KeyBinding::new(KeyCode::Esc, mods(true, false, false, false));
    assert!(b.matches(&press(KeyCode::Esc, mods(true, false, false, false))));
    assert!(!b.matches(&press(KeyCode::Esc, mods(true, false, true, false))));
    let release = KeyEvent {
        kind: KeyEventKind::Release,
        ..press(KeyCode::Esc, mods(true, false, false, false))
    };
    assert!(!b.matches(&release));
}

#[test]
fn keyset_setting() {
    assert_eq!(default_copy_mode_keyset(Some("EMACS".to_string())), CopyModeKeySet::Emacs);
    assert_eq!(default_copy_mode_keyset(Some("vi".to_string())), CopyModeKeySet::Vi);
    assert_eq!(default_copy_mode_keyset(None), CopyModeKeySet::Vi);
}

#[test]
fn copy_mode_keys_shared_by_both_sets() {
    for mode in [CopyModeKeySet::Vi, CopyModeKeySet::Emacs] {
        assert_eq!(copy_mode_command_for_key(mode, false, &press(KeyCode::Esc, none())), Some(CopyModeCommand::Cancel));
        assert_eq!(
            copy_mode_command_for_key(mode, false, &press(KeyCode::Up, none())),
            Some(CopyModeCommand::Move { rows: -1, cols: 0 })
        );
        assert_eq!(
            copy_mode_command_for_key(mode, false, &press(KeyCode::Char('e'), mods(false, true, false, false))),
            Some(CopyModeCommand::SetMode(CopyModeKeySet::Emacs))
        );
        assert_eq!(
            copy_mode_command_for_key(mode, false, &press(KeyCode::Char('G'), mods(true, false, false, false))),
            Some(CopyModeCommand::Cancel)
        );
    }
}

#[test]
fn vi_copy_mode_keys() {
    let vi = CopyModeKeySet::Vi;
    assert_eq!(
        copy_mode_command_for_key(vi, false, &press(KeyCode::Char('w'), none())),
        Some(CopyModeCommand::MoveWord(WordMotion::NextStart))
    );
    assert_eq!(copy_mode_command_for_key(vi, false, &press(KeyCode::Char('G'), none())), Some(CopyModeCommand::JumpBottom));
    assert_eq!(copy_mode_command_for_key(vi, false, &press(KeyCode::Char('g'), none())), Some(CopyModeCommand::JumpTop));
    assert_eq!(
        copy_mode_command_for_key(vi, false, &press(KeyCode::Char('V'), mods(false, false, true, false))),
        Some(CopyModeCommand::SetSelectionMode(SelectionMode::Line))
    );
    assert_eq!(
        copy_mode_command_for_key(vi, false, &press(KeyCode::Char('v'), mods(true, false, false, false))),
        Some(CopyModeCommand::SetSelectionMode(SelectionMode::Block))
    );
    assert_eq!(
        copy_mode_command_for_key(vi, true, &press(KeyCode::Char(' '), none())),
        Some(CopyModeCommand::ToggleSelection)
    );
    assert_eq!(
        copy_mode_command_for_key(vi, false, &press(KeyCode::Char(' '), none())),
        Some(CopyModeCommand::BeginSelection)
    );
    assert_eq!(
        copy_mode_command_for_key(vi, false, &press(KeyCode::Char('N'), none())),
        Some(CopyModeCommand::RepeatLastSearch(CopyModeSearchDirection::Backward))
    );
    assert_eq!(
        copy_mode_command_for_key(vi, false, &press(KeyCode::Char('d'), mods(true, false, false, false))),
        Some(CopyModeCommand::HalfPage { delta: 1 })
    );
    assert_eq!(copy_mode_command_for_key(vi, false, &press(KeyCode::Char('z'), none())), None);
}

#[test]
fn emacs_copy_mode_keys() {
    let emacs = CopyModeKeySet::Emacs;
    assert_eq!(
        copy_mode_command_for_key(emacs, false, &press(KeyCode::Char('f'), mods(true, false, false, false))),
        Some(CopyModeCommand::Move { rows: 0, cols: 1 })
    );
    assert_eq!(
        copy_mode_command_for_key(emacs, false, &press(KeyCode::Char('f'), mods(false, true, false, false))),
        Some(CopyModeCommand::MoveWord(WordMotion::NextStart))
    );
    assert_eq!(
        copy_mode_command_for_key(emacs, false, &press(KeyCode::Char('v'), mods(false, true, false, false))),
        Some(CopyModeCommand::SetMode(CopyModeKeySet::Vi))
    );
    assert_eq!(
        copy_mode_command_for_key(emacs, true, &press(KeyCode::Char(' '), mods(true, false, false, false))),
        Some(CopyModeCommand::ToggleSelection)
    );
    assert_eq!(copy_mode_command_for_key(emacs, false, &press(KeyCode::Char('y'), none())), Some(CopyModeCommand::CopySelection));
    assert_eq!(copy_mode_command_for_key(emacs, false, &press(KeyCode::Char('w'), none())), None);
}

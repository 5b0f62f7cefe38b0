use beach::client::terminal::keys::{KeyCode, KeyEvent, KeyEventKind, KeyModifiers};
use beach::client::terminal_client::{handle_key_event, KeyAction};

fn key(code: KeyCode, control: bool, shift: bool) -> KeyEvent {
    KeyEvent {
        code,
        modifiers: KeyModifiers {
            shift,
            control,
            alt: false,
            super_key: false,
            hyper: false,
            meta: false,
        },
        kind: KeyEventKind::Press,
    }
}

#[test]
fn ctrl_c_leaves_the_client() {
    assert_eq!(handle_key_event(&key(KeyCode::Char('c'), true, false), false), KeyAction::Shutdown);
    assert_eq!(handle_key_event(&key(KeyCode::Char('C'), true, false), false), KeyAction::Shutdown);
}

#[test]
fn ctrl_letters_send_control_codes() {
    assert_eq!(handle_key_event(&key(KeyCode::Char('a'), true, false), false), KeyAction::Send(vec![0x01]));
    assert_eq!(handle_key_event(&key(KeyCode::Char('Z'), true, false), false), KeyAction::Send(vec![0x1A]));
    assert_eq!(handle_key_event(&key(KeyCode::Char('['), true, false), false), KeyAction::Send(vec![0x1B]));
    assert_eq!(handle_key_event(&key(KeyCode::Char('_'), true, false), false), KeyAction::Send(vec![0x1F]));
    assert_eq!(handle_key_event(&key(KeyCode::Char('1'), true, false), false), KeyAction::Ignore);
}

#[test]
fn plain_keys_send_their_bytes() {
    assert_eq!(handle_key_event(&key(KeyCode::Char('x'), false, false), false), KeyAction::Send(vec![b'x']));
    assert_eq!(handle_key_event(&key(KeyCode::Enter, false, false), false), KeyAction::Send(vec![b'\r']));
    assert_eq!(handle_key_event(&key(KeyCode::Tab, false, false), false), KeyAction::Send(vec![b'\t']));
    assert_eq!(handle_key_event(&key(KeyCode::Backspace, false, false), false), KeyAction::Send(vec![0x7F]));
    assert_eq!(handle_key_event(&key(KeyCode::Up, false, false), false), KeyAction::Send(b"\x1b[A".to_vec()));
    assert_eq!(handle_key_event(&key(KeyCode::Delete, false, false), false), KeyAction::Send(b"\x1b[3~".to_vec()));
    assert_eq!(handle_key_event(&key(KeyCode::Enter, true, false), false), KeyAction::Send(vec![b'\r']));
}

#[test]
fn escape_ends_a_selection_or_is_sent() {
    assert_eq!(handle_key_event(&key(KeyCode::Esc, false, false), true), KeyAction::CancelSelection);
    assert_eq!(handle_key_event(&key(KeyCode::Esc, false, false), false), KeyAction::Send(vec![0x1B]));
}

#[test]
fn shifted_page_keys_scroll() {
    assert_eq!(handle_key_event(&key(KeyCode::PageUp, false, true), false), KeyAction::Scroll(10));
    assert_eq!(handle_key_event(&key(KeyCode::PageDown, false, true), false), KeyAction::Scroll(-10));
    assert_eq!(handle_key_event(&key(KeyCode::PageUp, false, false), false), KeyAction::Send(b"\x1b[5~".to_vec()));
}

#[test]
fn function_keys_send_their_sequences() {
    assert_eq!(handle_key_event(&key(KeyCode::F(1), false, false), false), KeyAction::Send(b"\x1bOP".to_vec()));
    assert_eq!(handle_key_event(&key(KeyCode::F(5), false, false), false), KeyAction::Send(b"\x1b[15~".to_vec()));
    assert_eq!(handle_key_event(&key(KeyCode::F(11), false, false), false), KeyAction::Send(b"\x1b[23~".to_vec()));
    assert_eq!(handle_key_event(&key(KeyCode::F(13), false, false), false), KeyAction::Ignore);
    assert_eq!(handle_key_event(&key(KeyCode::Other, false, false), false), KeyAction::Ignore);
}

use beach::client::terminal::join::{
    interpret_session_target, normalize_passcode, offer_label, passcode_from_input,
    summarize_offers, TransportOfferKind,
};
use beach::client::terminal_client::{passphrase_prompt_key, passphrase_prompt_line, PassphrasePromptStep};
use beach::client::terminal::keys::{KeyCode, KeyEvent, KeyEventKind, KeyModifiers};

const ID: &str = "67e55044-10b1-426f-9247-bb680e5fe0c8";

#[test]
fn a_bare_id_is_normalized_and_has_no_server() {
    let (id, base) = interpret_session_target("67E5504410B1426F9247BB680E5FE0C8").unwrap();
    assert_eq!(id, ID);
    assert_eq!(base, None);
}

#[test]
fn a_session_url_gives_the_id_and_the_server() {
    let (id, base) = interpret_session_target(&format!("https://beach.example/sessions/{ID}/join?x=1#frag")).unwrap();
    assert_eq!(id, ID);
    assert_eq!(base.as_deref(), Some("https://beach.example/"));

    let (id, base) = interpret_session_target(&format!("http://host:8080/api/sessions/{ID}")).unwrap();
    assert_eq!(id, ID);
    assert_eq!(base.as_deref(), Some("http://host:8080/api/"));

    let (_, base) = interpret_session_target(&format!("https://beach.example/{ID}")).unwrap();
    assert_eq!(base.as_deref(), Some("https://beach.example/"));
}

#[test]
fn targets_without_a_session_are_refused() {
    assert_eq!(interpret_session_target("not a session").unwrap_err().target, "not a session");
    assert!(interpret_session_target("https://beach.example/").is_err());
    assert!(interpret_session_target("https://beach.example/sessions/abc/join").is_err());
}

#[test]
fn passcodes_are_six_ascii_alphanumerics() {
    assert_eq!(passcode_from_input("  ab12cd \n").as_deref(), Some("AB12CD"));
    assert_eq!(passcode_from_input("abc12"), None);
    assert_eq!(passcode_from_input("abc-12"), None);
    assert_eq!(passcode_from_input("abcdéf"), None);
    assert_eq!(normalize_passcode(" xy9 "), "XY9");
}

#[test]
fn offers_are_listed_once_in_order() {
    assert_eq!(offer_label(TransportOfferKind::WebSocketFallback), "WebSocket (Fallback)");
    assert_eq!(
        summarize_offers(&vec![
            TransportOfferKind::WebRtc,
            TransportOfferKind::WebSocket,
            TransportOfferKind::WebRtc,
            TransportOfferKind::Ipc,
        ]),
        "WebRTC, WebSocket, IPC"
    );
    assert_eq!(summarize_offers(&Vec::new()), "");
}

fn key(code: KeyCode) -> KeyEvent {
    KeyEvent {
        code,
        modifiers: KeyModifiers::none(),
        kind: KeyEventKind::Press,
    }
}

#[test]
fn passphrase_prompt_keys() {
    let mut typed = String::new();
    assert!(matches!(passphrase_prompt_key(&mut typed, &key(KeyCode::Enter)), PassphrasePromptStep::Continue));
    passphrase_prompt_key(&mut typed, &key(KeyCode::Char('p')));
    passphrase_prompt_key(&mut typed, &key(KeyCode::Char('w')));
    passphrase_prompt_key(&mut typed, &key(KeyCode::Char('x')));
    passphrase_prompt_key(&mut typed, &key(KeyCode::Backspace));
    assert_eq!(typed, "pw");
    assert_eq!(passphrase_prompt_line(&typed, true), "pw█");
    assert_eq!(passphrase_prompt_line(&typed, false), "pw");
    match passphrase_prompt_key(&mut typed, &key(KeyCode::Enter)) {
        PassphrasePromptStep::Done(p) => assert_eq!(p, "pw"),
        other => panic!("unexpected {:?}", other),
    }
    assert!(matches!(passphrase_prompt_key(&mut typed, &key(KeyCode::Esc)), PassphrasePromptStep::Cancelled));
}

use beach::client::terminal::authorization::{
    disconnected_before_approval, parse_signal, Authorization, AuthorizationState, ParsedSignal,
};

#[test]
fn connecting_falls_back_to_waiting_after_a_while() {
    let mut auth = Authorization::new(1_000);
    assert_eq!(auth.connection_indicator().0, "🔌 connecting -");
    assert!(!auth.tick(1_500));
    assert_eq!(auth.state(), AuthorizationState::Connecting);
    assert!(auth.tick(1_750));
    assert_eq!(auth.state(), AuthorizationState::Waiting);
    assert_eq!(auth.message().as_deref(), Some("Connected - syncing remote session..."));
    assert_eq!(auth.connection_indicator().0, "🕑 Connected - syncing remote session... -");
}

#[test]
fn the_spinner_turns_while_waiting() {
    let mut auth = Authorization::new(0);
    auth.set_state(AuthorizationState::Waiting, None, 0);
    assert!(auth.tick(120));
    assert_eq!(auth.connection_indicator().0, "🕑 Waiting for host approval... \\");
    assert!(!auth.tick(200));
    assert!(auth.tick(240));
    assert_eq!(auth.connection_indicator().0, "🕑 Waiting for host approval... |");
}

#[test]
fn hints_replace_the_plain_waiting_message() {
    let mut auth = Authorization::new(0);
    auth.set_state(AuthorizationState::Waiting, None, 0);
    auth.tick(10_000);
    assert_eq!(auth.message().as_deref(), Some("Still waiting... hang tight."));
    // A hint message is not plain: the second hint leaves it.
    auth.tick(30_000);
    assert_eq!(auth.message().as_deref(), Some("Still waiting... hang tight."));

    let mut custom = Authorization::new(0);
    custom.set_state(AuthorizationState::Waiting, Some("host is busy".to_string()), 0);
    custom.tick(31_000);
    assert_eq!(custom.message().as_deref(), Some("host is busy"));
}

#[test]
fn approval_message_fades_and_denial_schedules_exit() {
    let mut auth = Authorization::new(0);
    assert!(auth.set_state(AuthorizationState::Approved, None, 100));
    assert!(!auth.set_state(AuthorizationState::Approved, Some("Approved - syncing...".to_string()), 150));
    assert_eq!(auth.connection_indicator().0, "✅ Approved - syncing...");
    assert!(auth.tick(1_300));
    assert_eq!(auth.message(), None);
    assert_eq!(auth.connection_indicator().0, "✅ connected");
    assert_eq!(auth.connection_indicator().1.fg, 0x0100_0002);

    let mut denied = Authorization::new(0);
    denied.set_state(AuthorizationState::Denied, Some(disconnected_before_approval()), 500);
    assert_eq!(denied.connection_indicator().0, "⛔ Disconnected before approval.");
    assert!(!denied.should_exit(1_699));
    assert!(denied.should_exit(1_700));
}

#[test]
fn status_signals_are_parsed() {
    assert!(matches!(parse_signal("  beach:status:approval_pending  "), Some(ParsedSignal::Pending(d)) if d.is_empty()));
    assert!(matches!(
        parse_signal("beach:status:approval_denied   go away  "),
        Some(ParsedSignal::Denied(d)) if d == "go away"
    ));
    assert!(matches!(parse_signal("beach:status:other x"), Some(ParsedSignal::Unknown)));
    assert!(parse_signal("hello").is_none());
}

#[test]
fn status_signals_move_the_state() {
    let mut auth = Authorization::new(0);
    assert_eq!(auth.handle_signal("beach:status:approval_pending", false, 10), (true, true));
    assert_eq!(auth.state(), AuthorizationState::Waiting);
    assert_eq!(auth.handle_signal("beach:status:approval_pending", true, 20), (true, false));
    assert_eq!(auth.handle_signal("beach:status:approval_granted welcome", false, 30), (true, true));
    assert_eq!(auth.message().as_deref(), Some("welcome"));
    assert_eq!(auth.handle_signal("__ready__", false, 40), (false, false));
    assert_eq!(auth.handle_signal("beach:status:approval_denied", false, 50), (true, true));
    assert_eq!(auth.message().as_deref(), Some("Join request was declined by host."));
}

#[test]
fn a_pending_signal_comes_before_the_fallback() {
    let mut auth = Authorization::new(0);
    auth.handle_signal("beach:status:approval_pending", false, 10);
    let mut fresh = Authorization::new(0);
    fresh.tick(800);
    assert_eq!(fresh.message().as_deref(), Some("Connected - syncing remote session..."));
    assert_eq!(auth.message().as_deref(), Some("Waiting for host approval..."));
}

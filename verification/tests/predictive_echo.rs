use beach::client::predictive_echo::PredictiveEcho;
use beach::protocol::ControlMessage;

#[test]
fn test_prediction_tracking() {
    let mut echo = PredictiveEcho::new("client-1".to_string());

    // Predict some input
    let seq1 = echo.predict_input(vec![b'h'], (0, 0));
    let seq2 = echo.predict_input(vec![b'i'], (1, 0));

    assert_eq!(seq1, 1);
    assert_eq!(seq2, 2);
    assert_eq!(echo.active_predictions().len(), 2);

    // Acknowledge first prediction
    echo.acknowledge(seq1, 1, 1);
    let removed = echo.remove_acknowledged();

    assert_eq!(removed, vec![seq1]);
    assert_eq!(echo.active_predictions().len(), 1);
}

#[test]
fn test_underline_check() {
    let mut echo = PredictiveEcho::new("client-1".to_string());

    // Predict at position (5, 0)
    echo.predict_input(vec![b'x'], (5, 0));

    assert!(echo.should_underline((5, 0)));
    assert!(!echo.should_underline((6, 0)));
}

#[test]
fn predictions_time_out_after_the_deadline() {
    let mut echo = PredictiveEcho::new("client-1".to_string());
    let seq = echo.predict_input_at(vec![b'a'], (0, 0), 1_000);
    // Still within the 500 ms window.
    assert_eq!(echo.remove_timed_out_at(1_000 + 500_000_000), Vec::<u64>::new());
    assert_eq!(echo.active_predictions().len(), 1);
    // Past it.
    assert_eq!(echo.remove_timed_out_at(1_000 + 500_000_001), vec![seq]);
    assert_eq!(echo.active_predictions().len(), 0);
}

#[test]
fn acknowledged_predictions_are_neither_active_nor_underlined() {
    let mut echo = PredictiveEcho::new("client-1".to_string());
    let a = echo.predict_input(vec![b'a'], (0, 0));
    let b = echo.predict_input(vec![b'b'], (1, 0));
    echo.acknowledge(a, 7, 9);
    let active = echo.active_predictions();
    assert_eq!(active.len(), 1);
    assert_eq!(active[0].0, b);
    assert!(!echo.should_underline((0, 0)));
    assert!(echo.should_underline((1, 0)));
}

#[test]
fn acknowledging_an_unknown_sequence_changes_nothing() {
    let mut echo = PredictiveEcho::new("client-1".to_string());
    echo.predict_input(vec![b'a'], (0, 0));
    echo.acknowledge(42, 0, 0);
    assert_eq!(echo.remove_acknowledged(), Vec::<u64>::new());
    assert_eq!(echo.active_predictions().len(), 1);
}

#[test]
fn replay_queue_lists_unacknowledged_input_in_order() {
    let mut echo = PredictiveEcho::new("client-1".to_string());
    let a = echo.predict_input(vec![b'a'], (0, 0));
    let b = echo.predict_input(vec![b'b', b'c'], (1, 0));
    let c = echo.predict_input(vec![b'd'], (3, 0));
    echo.acknowledge(b, 1, 1);
    let queue = echo.queue_for_replay();
    assert_eq!(queue, vec![(a, vec![b'a']), (c, vec![b'd'])]);
}

#[test]
fn clear_drops_every_prediction_but_keeps_numbering() {
    let mut echo = PredictiveEcho::new("client-1".to_string());
    echo.predict_input(vec![b'a'], (0, 0));
    echo.predict_input(vec![b'b'], (1, 0));
    echo.clear();
    assert_eq!(echo.active_predictions().len(), 0);
    assert!(!echo.should_underline((0, 0)));
    assert_eq!(echo.predict_input(vec![b'c'], (2, 0)), 3);
}

#[test]
fn input_message_carries_client_and_sequence() {
    let echo = PredictiveEcho::new("client-9".to_string());
    match echo.create_input_message(5, vec![1, 2, 3]) {
        ControlMessage::Input { client_id, client_seq, bytes } => {
            assert_eq!(client_id, "client-9");
            assert_eq!(client_seq, 5);
            assert_eq!(bytes, vec![1, 2, 3]);
        }
    }
}

#[test]
fn test_timeout_removal() {
    let mut echo = PredictiveEcho::new("client-1".to_string());
    echo.prediction_timeout_nanos = 0; // Immediate timeout

    let seq = echo.predict_input(vec![b'a'], (0, 0));
    let start = std::time::Instant::now();
    while start.elapsed() < std::time::Duration::from_millis(1) {}

    let removed = echo.remove_timed_out();
    assert_eq!(removed, vec![seq]);
    assert_eq!(echo.active_predictions().len(), 0);
}

#[test]
fn clearing_forgets_predictions_but_not_numbering() {
    let mut echo = PredictiveEcho::new("client-1".to_string());
    echo.predict_input(vec![b'a'], (0, 0));
    echo.predict_input(vec![b'b'], (1, 0));
    echo.acknowledge(1, 1, 1);
    echo.clear();
    assert!(echo.active_predictions().is_empty());
    assert!(echo.queue_for_replay().is_empty());
    assert!(!echo.should_underline((1, 0)));
    assert!(echo.remove_acknowledged().is_empty());
    assert_eq!(echo.predict_input(vec![b'c'], (2, 0)), 3);
}

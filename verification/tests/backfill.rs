use beach::client::grid_renderer::GridRenderer;
use beach::client::terminal::backfill::{Backfill, BackfillOrder};
use beach::client::terminal::ClientError;

fn tail_renderer() -> GridRenderer {
    let mut renderer = GridRenderer::new(200, 80);
    renderer.on_resize(80, 26);
    for row in 176..200usize {
        renderer.apply_row_from_text(row, 1, "loaded");
    }
    renderer
}

fn subscribed_state() -> Backfill {
    let mut backfill = Backfill::new();
    backfill.on_hello(7, 24);
    backfill.has_loaded_rows = true;
    backfill.handshake_history_rows = 200;
    for row in 176..200u64 {
        backfill.note_loaded_row(row);
    }
    backfill
}

#[test]
fn nothing_is_requested_before_subscribing() {
    let renderer = tail_renderer();
    let mut backfill = Backfill::new();
    backfill.has_loaded_rows = true;
    assert_eq!(backfill.maybe_request_backfill(&renderer, 1_000), None);
    assert!(backfill.pending.is_empty());
}

#[test]
fn nothing_is_requested_before_rows_load() {
    let renderer = tail_renderer();
    let mut backfill = subscribed_state();
    backfill.has_loaded_rows = false;
    assert_eq!(backfill.maybe_request_backfill(&renderer, 1_000), None);
}

#[test]
fn first_request_covers_the_unloaded_rows_above_the_viewport() {
    let renderer = tail_renderer();
    let mut backfill = subscribed_state();
    let order = backfill.maybe_request_backfill(&renderer, 1_000);
    assert_eq!(
        order,
        Some(BackfillOrder { subscription: 7, request_id: 1, start: 56, count: 120 })
    );
    assert_eq!(backfill.pending.len(), 1);
    assert_eq!(backfill.pending[0].start, 56);
    assert_eq!(backfill.pending[0].end, 176);
    assert_eq!(backfill.next_request_id, 2);
    assert_eq!(backfill.last_request_at, Some(1_000));
}

#[test]
fn requests_wait_for_the_rate_limit_and_skip_rows_in_flight() {
    let renderer = tail_renderer();
    let mut backfill = subscribed_state();
    assert!(backfill.maybe_request_backfill(&renderer, 1_000).is_some());
    assert_eq!(backfill.maybe_request_backfill(&renderer, 1_100), None);
    assert_eq!(backfill.maybe_request_backfill(&renderer, 1_300), None);
    assert_eq!(backfill.pending.len(), 1);
}

#[test]
fn timed_out_requests_are_dropped_and_asked_again() {
    let renderer = tail_renderer();
    let mut backfill = subscribed_state();
    assert!(backfill.maybe_request_backfill(&renderer, 1_000).is_some());
    let order = backfill.maybe_request_backfill(&renderer, 7_000);
    assert_eq!(
        order,
        Some(BackfillOrder { subscription: 7, request_id: 2, start: 79, count: 120 })
    );
    assert_eq!(backfill.pending.len(), 1);
    assert_eq!(backfill.pending[0].id, 2);
}

#[test]
fn an_empty_answer_is_recorded_and_retires_the_request() {
    let renderer = tail_renderer();
    let mut backfill = subscribed_state();
    assert!(backfill.maybe_request_backfill(&renderer, 1_000).is_some());
    backfill.finish_response(1, 56, 120, true, false, false, 0, 1_500);
    assert!(backfill.pending.is_empty());
    assert_eq!(backfill.last_request_at, None);
    assert_eq!(backfill.empty_tail_ranges.len(), 1);
    assert_eq!(backfill.empty_tail_ranges[0].start, 56);
    assert_eq!(backfill.empty_tail_ranges[0].end, 320);
    assert_eq!(backfill.empty_tail_ranges[0].highest_at, Some(199));
    assert!(!backfill.empty_tail_ranges[0].retry_attempted);
    assert_eq!(backfill.known_base_row, Some(320));
}

#[test]
fn a_partial_answer_keeps_the_request_in_flight() {
    let renderer = tail_renderer();
    let mut backfill = subscribed_state();
    assert!(backfill.maybe_request_backfill(&renderer, 1_000).is_some());
    backfill.finish_response(1, 100, 76, false, false, true, 0, 1_500);
    assert_eq!(backfill.pending.len(), 1);
    assert_eq!(backfill.pending[0].start, 100);
    assert_eq!(backfill.pending[0].end, 176);
    assert_eq!(backfill.pending[0].issued_at, 1_500);
    assert!(backfill.pending[0].more_expected);
    assert_eq!(backfill.last_request_at, Some(1_000));
}

#[test]
fn answers_with_rows_clear_overlapping_empty_ranges() {
    let mut backfill = subscribed_state();
    backfill.record_empty_tail_range(0, 10, 20, true, 5);
    assert_eq!(backfill.empty_tail_ranges.len(), 1);
    assert!(backfill.empty_tail_ranges[0].retry_attempted);
    backfill.clear_empty_tail_ranges(300, 400);
    assert!(backfill.empty_tail_ranges.is_empty());
}

#[test]
fn empty_ranges_merge_when_they_overlap() {
    let mut backfill = Backfill::new();
    backfill.record_empty_tail_range(0, 10, 20, false, 5);
    backfill.record_empty_tail_range(0, 15, 30, true, 9);
    assert_eq!(backfill.empty_tail_ranges.len(), 1);
    assert_eq!(backfill.empty_tail_ranges[0].start, 10);
    assert_eq!(backfill.empty_tail_ranges[0].end, 30);
    assert_eq!(backfill.empty_tail_ranges[0].recorded_at, 9);
    assert!(backfill.empty_tail_ranges[0].retry_attempted);
    assert_eq!(backfill.known_base_row, Some(30));
}

#[test]
fn empty_range_is_clamped_to_the_first_row_held() {
    let mut backfill = Backfill::new();
    backfill.record_empty_tail_range(50, 10, 40, false, 5);
    assert!(backfill.empty_tail_ranges.is_empty());
    backfill.record_empty_tail_range(50, 10, 60, false, 5);
    assert_eq!(backfill.empty_tail_ranges[0].start, 50);
    assert_eq!(backfill.empty_tail_ranges[0].end, 60);
}

#[test]
fn scrolled_back_with_a_cursor_asks_for_the_rows_above_the_newest() {
    let mut renderer = GridRenderer::new(10, 80);
    renderer.on_resize(80, 26);
    renderer.set_follow_tail(false);
    let mut backfill = Backfill::new();
    backfill.on_hello(3, 24);
    backfill.has_loaded_rows = true;
    backfill.cursor_seq = 5;
    backfill.note_loaded_row(500);
    let order = backfill.maybe_request_backfill(&renderer, 10);
    assert_eq!(
        order,
        Some(BackfillOrder { subscription: 3, request_id: 1, start: 380, count: 256 })
    );
    assert_eq!(backfill.last_tail_start, Some(380));
    assert_eq!(backfill.maybe_request_backfill(&renderer, 100), None);
}

#[test]
fn hello_forgets_all_history_bookkeeping() {
    let renderer = tail_renderer();
    let mut backfill = subscribed_state();
    assert!(backfill.maybe_request_backfill(&renderer, 1_000).is_some());
    backfill.on_hello(9, 30);
    assert_eq!(backfill.subscription, Some(9));
    assert!(backfill.pending.is_empty());
    assert_eq!(backfill.next_request_id, 1);
    assert_eq!(backfill.highest_loaded_row, None);
    assert!(!backfill.has_loaded_rows);
    assert_eq!(backfill.handshake_snapshot_lines, 30);
}

#[test]
fn loaded_rows_only_raise_the_highest() {
    let mut backfill = Backfill::new();
    backfill.note_loaded_row(40);
    backfill.note_loaded_row(12);
    assert_eq!(backfill.highest_loaded_row, Some(40));
}

#[test]
fn rows_an_empty_answer_left_out_become_missing() {
    let mut renderer = GridRenderer::new(10, 20);
    let backfill = Backfill::new();
    backfill.finalize_backfill_range(&mut renderer, 2, 5, &[]);
    assert!(renderer.has_missing_rows());
    assert_eq!(renderer.row_text_for_test(2), Some(" ".repeat(20)));
    assert_eq!(renderer.row_text_for_test(4), Some(" ".repeat(20)));
    assert_eq!(renderer.row_text_for_test(5), Some("·".repeat(20)));
    assert_eq!(renderer.row_text_for_test(1), Some("·".repeat(20)));
}

#[test]
fn untouched_rows_of_an_answer_become_missing_and_the_base_moves_back() {
    let mut renderer = GridRenderer::new(60, 20);
    renderer.set_base_row(50);
    let backfill = Backfill::new();
    backfill.finalize_backfill_range(&mut renderer, 40, 55, &[41, 42]);
    assert_eq!(renderer.base_row(), 40);
    assert_eq!(renderer.row_text_for_test(50), Some(" ".repeat(20)));
    assert_eq!(renderer.row_text_for_test(56), Some("·".repeat(20)));
}

#[test]
fn the_base_does_not_move_before_the_first_known_row() {
    let mut renderer = GridRenderer::new(60, 20);
    renderer.set_base_row(50);
    let mut backfill = Backfill::new();
    backfill.known_base_row = Some(45);
    backfill.finalize_backfill_range(&mut renderer, 40, 55, &[41, 42]);
    assert_eq!(renderer.base_row(), 45);
}

#[test]
fn a_failed_send_is_a_transport_error_and_leaves_nothing_in_flight() {
    let renderer = tail_renderer();
    let mut backfill = subscribed_state();
    let order = backfill.maybe_request_backfill(&renderer, 1_000).unwrap();
    assert_eq!(backfill.pending.len(), 1);
    let err = backfill.send_failed(&order, "connection reset".to_string());
    assert!(matches!(err, ClientError::Transport(ref m) if m == "connection reset"));
    assert!(backfill.pending.is_empty());
    assert_eq!(backfill.next_request_id, 2);
}

#[test]
fn a_failed_send_keeps_other_requests_in_flight() {
    let renderer = tail_renderer();
    let mut backfill = subscribed_state();
    let first = backfill.maybe_request_backfill(&renderer, 1_000).unwrap();
    let stale = BackfillOrder { request_id: 9, ..first };
    let _ = backfill.send_failed(&stale, "gone".to_string());
    assert_eq!(backfill.pending.len(), 1);
    assert_eq!(backfill.pending[0].id, first.request_id);
}

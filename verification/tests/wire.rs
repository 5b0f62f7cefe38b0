use beach::client::grid_renderer::GridRenderer;
use beach::client::terminal::backfill::Backfill;
use beach::client::terminal::pending::{PendingPrediction, PendingPredictions};
use beach::client::terminal::prediction::{
    keep_prediction, prediction_gate, PredictedPosition, PredictionGate, PredictionSkip, PredictionWalk,
};
use beach::client::terminal::scrollback::ClientView;
use beach::client::terminal::wire::{ClientState, CursorState, WireUpdate};
use beach::client::terminal::CopyModeKeySet;

fn packed(ch: char, style: u32) -> u64 {
    ((ch as u64) << 32) | style as u64
}

fn state(rows: usize, cols: usize) -> ClientState {
    let mut renderer = GridRenderer::new(rows, cols);
    renderer.on_resize(cols as u16, rows as u16);
    ClientState {
        renderer,
        pending: PendingPredictions::new(),
        backfill: Backfill::new(),
        view: ClientView::new(true, Vec::new(), CopyModeKeySet::Vi),
        cursor: CursorState {
            row: 0,
            col: 0,
            server_row: 0,
            server_col: 0,
            authoritative: false,
            authoritative_pending: false,
            support: true,
            visible: true,
        },
        predictive_input: true,
        last_seq: 0,
    }
}

fn prediction_at(row: usize, col: usize, ch: char) -> PendingPrediction {
    PendingPrediction {
        positions: vec![PredictedPosition { row, col, ch }],
        sent_at: 0,
        acked_at: None,
        cursor_row: row,
        cursor_col: col + 1,
    }
}

#[test]
fn a_cell_update_writes_the_cell_and_infers_the_cursor() {
    let mut s = state(5, 10);
    let effect = s.apply_wire_update(&WireUpdate::Cell { row: 1, col: 3, seq: 1, cell: packed('x', 0) }, 0);
    assert_eq!(s.renderer.cell_for_render(1, 3), ('x', None, false));
    assert!(!effect.predictions_changed);
    assert_eq!(effect.cursor_hint, Some((1, 4)));
    assert!(s.backfill.has_loaded_rows);
    assert_eq!(s.backfill.highest_loaded_row, Some(1));
}

#[test]
fn an_owned_cursor_gets_no_hint() {
    let mut s = state(5, 10);
    s.cursor.authoritative = true;
    let effect = s.apply_wire_update(&WireUpdate::Cell { row: 1, col: 3, seq: 1, cell: packed('x', 2) }, 0);
    assert_eq!(effect.cursor_hint, None);
    assert_eq!(s.renderer.cell_for_render(1, 3), ('x', Some(2), false));
    s.cursor.authoritative = false;
    s.cursor.authoritative_pending = true;
    let effect = s.apply_wire_update(&WireUpdate::Row { row: 2, seq: 2, cells: vec![packed('a', 0)] }, 0);
    assert_eq!(effect.cursor_hint, None);
}

#[test]
fn predictions_under_written_cells_are_dropped() {
    let mut s = state(5, 10);
    s.pending.insert(1, prediction_at(1, 3, 'q'));
    s.pending.insert(2, prediction_at(2, 0, 'r'));
    let effect = s.apply_wire_update(&WireUpdate::Cell { row: 1, col: 3, seq: 1, cell: packed('x', 0) }, 0);
    assert!(effect.predictions_changed);
    assert_eq!(s.pending.len(), 1);
    assert!(s.pending.contains(2));
    assert!(s.view.force_render);
    let effect = s.apply_wire_update(
        &WireUpdate::Rect { row_start: 0, row_end: 3, col_start: 0, col_end: 2, seq: 3, cell: packed(' ', 0) },
        0,
    );
    assert!(effect.predictions_changed);
    assert_eq!(s.pending.len(), 0);
    assert_eq!(effect.cursor_hint.map(|(row, _)| row), Some(2));
    assert_eq!(s.backfill.highest_loaded_row, Some(2));
}

#[test]
fn a_row_segment_writes_from_its_column() {
    let mut s = state(5, 10);
    s.pending.insert(1, prediction_at(0, 7, 'z'));
    let cells = vec![packed('a', 0), packed('b', 0)];
    let effect = s.apply_wire_update(&WireUpdate::RowSegment { row: 0, start_col: 2, seq: 1, cells }, 0);
    assert_eq!(s.renderer.cell_for_render(0, 2), ('a', None, false));
    assert_eq!(s.renderer.cell_for_render(0, 3), ('b', None, false));
    assert!(!effect.predictions_changed);
    assert_eq!(s.pending.len(), 1);
    assert_eq!(effect.cursor_hint, Some((0, 4)));
}

#[test]
fn an_empty_segment_only_marks_rows_loaded() {
    let mut s = state(5, 10);
    let effect =
        s.apply_wire_update(&WireUpdate::RowSegment { row: 0, start_col: 2, seq: 1, cells: Vec::new() }, 0);
    assert!(!effect.predictions_changed);
    assert_eq!(effect.cursor_hint, None);
    assert!(s.backfill.has_loaded_rows);
    assert_eq!(s.backfill.highest_loaded_row, None);
}

#[test]
fn a_trim_moves_the_cursor_below_it_and_drops_predictions() {
    let mut s = state(5, 10);
    s.cursor.row = 1;
    s.cursor.col = 4;
    s.pending.insert(1, prediction_at(4, 0, 'k'));
    s.backfill.highest_loaded_row = Some(2);
    let effect = s.apply_wire_update(&WireUpdate::Trim { start: 0, count: 3 }, 0);
    assert!(effect.predictions_changed);
    assert_eq!(s.pending.len(), 0);
    assert_eq!(s.backfill.known_base_row, Some(3));
    assert_eq!(s.backfill.highest_loaded_row, None);
    assert_eq!((s.cursor.row, s.cursor.col), (3, 0));
    assert_eq!((s.cursor.server_row, s.cursor.server_col), (3, 0));
    assert!(s.view.force_render);
}

#[test]
fn a_style_update_is_recorded() {
    let mut s = state(5, 10);
    s.last_seq = 9;
    let effect = s.apply_wire_update(&WireUpdate::Style { id: 4, seq: 7, fg: 1, bg: 2, attrs: 3 }, 0);
    assert!(!effect.predictions_changed);
    assert_eq!(s.last_seq, 9);
    s.apply_wire_update(&WireUpdate::Style { id: 4, seq: 12, fg: 1, bg: 2, attrs: 3 }, 0);
    assert_eq!(s.last_seq, 12);
}

#[test]
fn a_cursor_hint_is_kept_within_the_grid() {
    let mut s = state(5, 10);
    s.apply_cursor_hint(2, 40);
    assert_eq!((s.cursor.row, s.cursor.col), (2, 10));
    assert_eq!((s.cursor.server_row, s.cursor.server_col), (2, 10));
}

#[test]
fn active_predictions_keep_the_shown_cursor() {
    let mut s = state(5, 10);
    s.pending.insert(1, prediction_at(3, 3, 'k'));
    s.apply_cursor_hint(2, 5);
    assert_eq!((s.cursor.row, s.cursor.col), (0, 0));
    assert_eq!((s.cursor.server_row, s.cursor.server_col), (2, 5));
}

#[test]
fn authoritative_updates_set_the_history_base() {
    let mut s = state(5, 10);
    s.observe_update_bounds(&WireUpdate::Cell { row: 3, col: 0, seq: 1, cell: 0 }, true);
    assert_eq!(s.backfill.known_base_row, Some(3));
    assert_eq!(s.renderer.base_row(), 3);
    s.observe_update_bounds(&WireUpdate::Row { row: 7, seq: 1, cells: Vec::new() }, true);
    assert_eq!(s.backfill.known_base_row, Some(3));
    s.observe_update_bounds(&WireUpdate::Row { row: 1, seq: 1, cells: Vec::new() }, false);
    assert_eq!(s.renderer.base_row(), 1);
    assert_eq!(s.backfill.known_base_row, Some(3));
    s.observe_update_bounds(&WireUpdate::Trim { start: 0, count: 1 }, true);
    assert_eq!(s.backfill.known_base_row, Some(3));
}

#[test]
fn the_prediction_gate_follows_the_guards() {
    assert_eq!(prediction_gate(false, true, 1, 0, false), PredictionGate::Skip(PredictionSkip::RenderDisabled));
    assert_eq!(prediction_gate(true, false, 1, 0, false), PredictionGate::Skip(PredictionSkip::PredictiveDisabled));
    assert_eq!(prediction_gate(true, true, 0, 0, false), PredictionGate::Skip(PredictionSkip::EmptyPayload));
    assert_eq!(prediction_gate(true, true, 33, 0, false), PredictionGate::Skip(PredictionSkip::PayloadTooLarge));
    assert_eq!(prediction_gate(true, true, 32, 0, true), PredictionGate::Predict { reset: false, flush: false });
    assert_eq!(prediction_gate(true, true, 1, 3, true), PredictionGate::Predict { reset: false, flush: true });
    assert_eq!(prediction_gate(true, true, 1, 3, false), PredictionGate::Predict { reset: false, flush: false });
    assert_eq!(prediction_gate(true, true, 1, 257, true), PredictionGate::Predict { reset: true, flush: false });
    assert_eq!(prediction_gate(true, true, 1, 256, false), PredictionGate::Predict { reset: false, flush: false });
}

#[test]
fn only_walks_that_did_something_are_kept() {
    let idle = PredictionWalk {
        positions: Vec::new(),
        cursor_row: 0,
        cursor_col: 0,
        cursor_changed: false,
        dropped_cells: Vec::new(),
    };
    assert!(!keep_prediction(&idle));
    let moved = PredictionWalk { cursor_changed: true, ..idle.clone() };
    assert!(keep_prediction(&moved));
    let drawn = PredictionWalk { positions: vec![PredictedPosition { row: 0, col: 0, ch: 'a' }], ..idle };
    assert!(keep_prediction(&drawn));
}

#[test]
fn ascii_lowercase_maps_only_ascii_letters() {
    assert_eq!(beach::text::str_to_ascii_lowercase("HeLLo-ÄZ@["), "hello-Äz@[");
    assert_eq!(beach::text::str_to_ascii_lowercase(""), "");
}

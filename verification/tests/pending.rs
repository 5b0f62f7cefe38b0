use beach::client::grid_renderer::GridRenderer;
use beach::client::terminal::pending::{PendingPrediction, PendingPredictions};
use beach::client::terminal::prediction::PredictedPosition;

fn prediction(cells: &[(usize, usize, char)], cursor: (usize, usize)) -> PendingPrediction {
    PendingPrediction {
        positions: cells.iter().map(|&(row, col, ch)| PredictedPosition { row, col, ch }).collect(),
        sent_at: 0,
        acked_at: None,
        cursor_row: cursor.0,
        cursor_col: cursor.1,
    }
}

#[test]
fn the_newest_prediction_gives_the_cursor() {
    let mut pending = PendingPredictions::new();
    assert_eq!(pending.latest_prediction_cursor(), None);
    pending.insert(5, prediction(&[], (1, 5)));
    pending.insert(3, prediction(&[], (1, 3)));
    pending.insert(4, prediction(&[], (1, 4)));
    assert_eq!(pending.len(), 3);
    assert_eq!(pending.latest_prediction_cursor(), Some((5, 1, 5)));
    pending.insert(4, prediction(&[], (2, 0)));
    assert_eq!(pending.len(), 3);
    assert_eq!(pending.get(4).unwrap().cursor_row, 2);
    assert!(pending.contains(3));
    assert!(!pending.contains(6));
}

#[test]
fn acknowledgements_are_noted() {
    let mut pending = PendingPredictions::new();
    pending.insert(4, prediction(&[], (0, 1)));
    assert!(pending.mark_acked(4, 100));
    assert_eq!(pending.get(4).unwrap().acked_at, Some(100));
    assert!(!pending.mark_acked(9, 100));
}

#[test]
fn rebasing_moves_cells_and_cursor_left() {
    let mut renderer = GridRenderer::new(5, 20);
    renderer.add_prediction(1, 5, 3, 'a');
    renderer.add_prediction(1, 6, 3, 'b');
    let mut pending = PendingPredictions::new();
    pending.insert(3, prediction(&[(1, 5, 'a'), (1, 6, 'b')], (1, 7)));
    assert_eq!(pending.rebase_predictions_for_row(&mut renderer, 1, 2), (true, true));
    let p = pending.get(3).unwrap();
    assert_eq!(p.positions[0].col, 3);
    assert_eq!(p.positions[1].col, 4);
    assert_eq!(p.cursor_col, 5);
    assert!(renderer.prediction_exists(1, 3, 3));
    assert_eq!(pending.rebase_predictions_for_row(&mut renderer, 1, 0), (false, false));
    assert_eq!(pending.rebase_predictions_for_row(&mut renderer, 4, 1), (false, false));
}

#[test]
fn discarding_from_a_column_drops_the_predictions_reaching_it() {
    let mut renderer = GridRenderer::new(5, 20);
    renderer.add_prediction(1, 5, 3, 'a');
    renderer.add_prediction(2, 0, 4, 'b');
    let mut pending = PendingPredictions::new();
    pending.insert(3, prediction(&[(1, 5, 'a')], (1, 6)));
    pending.insert(4, prediction(&[(2, 0, 'b')], (2, 1)));
    assert_eq!(pending.discard_predictions_from_column(&mut renderer, 1, 7), (false, false));
    assert_eq!(pending.discard_predictions_from_column(&mut renderer, 1, 4), (true, false));
    assert!(!pending.contains(3));
    assert!(pending.contains(4));
    assert!(!renderer.prediction_exists(1, 5, 3));
    assert!(pending.row_has_predictions(&renderer, 2));
    assert!(!pending.row_has_predictions(&renderer, 1));
}

#[test]
fn predictions_clear_when_gone_committed_or_expired() {
    let mut renderer = GridRenderer::new(5, 20);
    renderer.apply_row_from_text(2, 1, "x");
    renderer.add_prediction(3, 0, 4, 'y');
    let mut pending = PendingPredictions::new();
    pending.insert(4, prediction(&[(3, 0, 'y')], (3, 1)));
    pending.insert(5, prediction(&[(2, 0, 'x')], (2, 1)));
    pending.insert(7, prediction(&[(0, 0, 'z')], (0, 1)));
    assert!(!pending.try_clear_prediction(&mut renderer, 4, false));
    assert!(pending.contains(4));
    assert!(pending.try_clear_prediction(&mut renderer, 4, true));
    assert!(!pending.contains(4));
    assert!(!renderer.prediction_exists(3, 0, 4));
    assert!(pending.try_clear_prediction(&mut renderer, 5, false));
    assert!(pending.try_clear_prediction(&mut renderer, 7, false));
    assert!(!pending.try_clear_prediction(&mut renderer, 9, true));
    assert_eq!(pending.len(), 0);
}

#[test]
fn dropping_all_clears_every_prediction_in_order() {
    let mut renderer = GridRenderer::new(5, 20);
    renderer.add_prediction(0, 0, 2, 'a');
    renderer.add_prediction(0, 1, 1, 'b');
    let mut pending = PendingPredictions::new();
    pending.insert(2, prediction(&[(0, 0, 'a')], (0, 1)));
    pending.insert(1, prediction(&[(0, 1, 'b')], (0, 2)));
    assert_eq!(pending.drop_all_predictions(&mut renderer), vec![1, 2]);
    assert_eq!(pending.len(), 0);
    assert!(!renderer.has_active_predictions());
}

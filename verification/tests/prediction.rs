use beach::client::grid_renderer::GridRenderer;
use beach::client::terminal::prediction::{predict_input, PredictedPosition};

fn pos(row: usize, col: usize, ch: char) -> PredictedPosition {
    PredictedPosition { row, col, ch }
}

#[test]
fn typed_characters_are_predicted_left_to_right() {
    let mut renderer = GridRenderer::new(5, 20);
    let walk = predict_input(&mut renderer, 7, 2, 3, false, b"ab");
    assert_eq!(walk.positions, vec![pos(2, 3, 'a'), pos(2, 4, 'b')]);
    assert_eq!((walk.cursor_row, walk.cursor_col), (2, 5));
    assert!(walk.cursor_changed);
    assert!(walk.dropped_cells.is_empty());
    assert!(renderer.prediction_exists(2, 3, 7));
    assert!(renderer.prediction_exists(2, 4, 7));
}

#[test]
fn carriage_return_and_line_feed_move_the_cursor() {
    let mut renderer = GridRenderer::new(5, 20);
    let walk = predict_input(&mut renderer, 1, 2, 3, false, b"a\r");
    assert_eq!((walk.cursor_row, walk.cursor_col), (2, 0));
    let walk = predict_input(&mut renderer, 2, 2, 3, false, b"a\n");
    assert_eq!((walk.cursor_row, walk.cursor_col), (3, 0));
    let walk = predict_input(&mut renderer, 3, 2, 0, false, b"\r");
    assert!(!walk.cursor_changed);
}

#[test]
fn backspace_ahead_of_the_host_predicts_a_blank() {
    let mut renderer = GridRenderer::new(5, 20);
    let walk = predict_input(&mut renderer, 4, 2, 3, true, b"ab\x7f");
    assert_eq!(walk.positions, vec![pos(2, 3, 'a'), pos(2, 4, ' ')]);
    assert_eq!((walk.cursor_row, walk.cursor_col), (2, 4));
    assert_eq!(walk.dropped_cells, vec![(2, 4)]);
}

#[test]
fn backspace_behind_the_host_only_moves() {
    let mut renderer = GridRenderer::new(5, 20);
    let walk = predict_input(&mut renderer, 4, 2, 3, false, b"ab\x08");
    assert_eq!(walk.positions, vec![pos(2, 3, 'a'), pos(2, 4, 'b')]);
    assert_eq!((walk.cursor_row, walk.cursor_col), (2, 4));
    assert_eq!(walk.dropped_cells, vec![(2, 4)]);
}

#[test]
fn backspace_at_the_start_of_a_row_goes_to_the_row_above() {
    let mut renderer = GridRenderer::new(5, 20);
    renderer.apply_row_from_text(1, 1, "hello");
    let walk = predict_input(&mut renderer, 5, 2, 0, false, b"\x7f");
    assert_eq!((walk.cursor_row, walk.cursor_col), (1, 4));
    let walk = predict_input(&mut renderer, 6, 0, 0, true, b"\x7f");
    assert!(!walk.cursor_changed);
    assert!(walk.positions.is_empty());
}

#[test]
fn other_control_bytes_are_ignored_and_high_bytes_are_latin1() {
    let mut renderer = GridRenderer::new(5, 20);
    let walk = predict_input(&mut renderer, 8, 0, 0, false, &[0x01, 0xE9]);
    assert_eq!(walk.positions, vec![pos(0, 0, 'é')]);
    assert_eq!((walk.cursor_row, walk.cursor_col), (0, 1));
}

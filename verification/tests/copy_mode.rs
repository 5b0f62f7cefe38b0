use beach::client::grid_renderer::{SelectionMode, SelectionPosition, SelectionRange};
use beach::client::terminal::{
    decode_wire_cell, find_next_word_end_in_line, find_next_word_start_in_line, find_prev_word_start_in_line,
    is_word_char, reverse_search_direction, CopyModeKeySet, CopyModeSearchDirection, CopyModeState,
    PredictionDropReason, PredictionTrimContext,
};

fn chars(s: &str) -> Vec<char> {
    s.chars().collect()
}

#[test]
fn word_characters() {
    assert!(is_word_char('a'));
    assert!(is_word_char('Z'));
    assert!(is_word_char('7'));
    assert!(is_word_char('_'));
    assert!(is_word_char('é'));
    assert!(!is_word_char(' '));
    assert!(!is_word_char('-'));
}

#[test]
fn next_word_start_moves_between_words() {
    let line = chars("alpha beta  gamma");
    assert_eq!(find_next_word_start_in_line(&line, None), Some(0));
    assert_eq!(find_next_word_start_in_line(&line, Some(0)), Some(6));
    assert_eq!(find_next_word_start_in_line(&line, Some(6)), Some(12));
    assert_eq!(find_next_word_start_in_line(&line, Some(5)), Some(6));
    assert_eq!(find_next_word_start_in_line(&line, Some(12)), None);
    assert_eq!(find_next_word_start_in_line(&[], None), None);
}

#[test]
fn next_word_end_finds_the_last_character_of_a_word() {
    let line = chars("alpha beta  gamma");
    assert_eq!(find_next_word_end_in_line(&line, None), Some(4));
    assert_eq!(find_next_word_end_in_line(&line, Some(0)), Some(4));
    assert_eq!(find_next_word_end_in_line(&line, Some(4)), Some(4));
    assert_eq!(find_next_word_end_in_line(&line, Some(5)), Some(9));
    assert_eq!(find_next_word_end_in_line(&line, Some(10)), Some(16));
    assert_eq!(find_next_word_end_in_line(&line, Some(17)), None);
    assert_eq!(find_next_word_end_in_line(&chars("   "), None), None);
}

#[test]
fn prev_word_start_moves_back_between_words() {
    let line = chars("alpha beta  gamma");
    assert_eq!(find_prev_word_start_in_line(&line, Some(12)), Some(6));
    assert_eq!(find_prev_word_start_in_line(&line, Some(6)), Some(0));
    assert_eq!(find_prev_word_start_in_line(&line, Some(0)), None);
    assert_eq!(find_prev_word_start_in_line(&line, None), Some(12));
    assert_eq!(find_prev_word_start_in_line(&line, Some(100)), Some(12));
    assert_eq!(find_prev_word_start_in_line(&chars("   "), None), None);
}

#[test]
fn search_direction_reverses_and_back() {
    assert_eq!(reverse_search_direction(CopyModeSearchDirection::Forward), CopyModeSearchDirection::Backward);
    assert_eq!(reverse_search_direction(CopyModeSearchDirection::Backward), CopyModeSearchDirection::Forward);
}

#[test]
fn wire_cells_decode_with_default_style_as_none() {
    let raw = ((('x' as u32) as u64) << 32) | 0;
    assert_eq!(decode_wire_cell(raw), ('x', None));
    let styled = ((('y' as u32) as u64) << 32) | 7;
    assert_eq!(decode_wire_cell(styled), ('y', Some(7)));
}

#[test]
fn event_names() {
    assert_eq!(PredictionTrimContext::CursorMoveLeft.as_str(), "cursor_move_left");
    assert_eq!(PredictionTrimContext::CursorClamp.as_str(), "cursor_clamp");
    assert_eq!(PredictionDropReason::ServerOverlap.as_str(), "server_overlap");
    assert_eq!(PredictionDropReason::CursorAdvance.as_str(), "cursor_advance");
    assert_eq!(PredictionDropReason::Skipped.as_str(), "skipped");
}

#[test]
fn copy_mode_selection_toggles() {
    let start = SelectionPosition { row: 3, col: 2 };
    let mut state = CopyModeState::new(start, CopyModeKeySet::Vi);
    state.begin_selection(SelectionMode::Line);
    state.toggle_selection();
    state.toggle_selection();
    state.clear_selection();
}

#[test]
fn character_selection_spans_rows() {
    let a = SelectionPosition { row: 5, col: 4 };
    let b = SelectionPosition { row: 3, col: 7 };
    let range = SelectionRange::new(a, b, SelectionMode::Character);
    assert_eq!(range.ordered_positions(), (b, a));
    assert_eq!(range.row_bounds(), (3, 5));
    assert!(range.contains(SelectionPosition { row: 3, col: 7 }));
    assert!(!range.contains(SelectionPosition { row: 3, col: 6 }));
    assert!(range.contains(SelectionPosition { row: 4, col: 0 }));
    assert!(range.contains(SelectionPosition { row: 5, col: 4 }));
    assert!(!range.contains(SelectionPosition { row: 5, col: 5 }));
    assert!(!range.contains(SelectionPosition { row: 6, col: 0 }));
}

#[test]
fn line_and_block_selection() {
    let a = SelectionPosition { row: 1, col: 8 };
    let b = SelectionPosition { row: 2, col: 3 };
    let line = SelectionRange::new(a, b, SelectionMode::Line);
    assert!(line.contains(SelectionPosition { row: 1, col: 0 }));
    assert!(line.contains(SelectionPosition { row: 2, col: 100 }));
    assert!(!line.contains(SelectionPosition { row: 0, col: 8 }));
    let block = SelectionRange::new(a, b, SelectionMode::Block);
    assert_eq!(block.block_col_bounds(), (3, 8));
    assert!(block.contains(SelectionPosition { row: 2, col: 5 }));
    assert!(!block.contains(SelectionPosition { row: 2, col: 9 }));
    assert!(!block.contains(SelectionPosition { row: 1, col: 2 }));
}

use beach::client::grid_renderer::{GridRenderer, SelectionMode, SelectionPosition};
use beach::client::terminal::copy_mode::{
    apply_selection_command, copy_mode_highlight, copy_mode_start_position, find_word_backward,
    find_word_forward, handle_pending_search_key, jump_copy_cursor_to_bottom,
    jump_copy_cursor_to_top, move_copy_cursor, move_copy_cursor_line_end,
    move_copy_cursor_line_start, move_copy_cursor_word, repeat_direction, search_not_found_message,
    search_prompt, set_copy_cursor_position, start_search, ForwardWordKind, PendingSearchOutcome,
};
use beach::client::terminal::keys::{
    CopyModeCommand, KeyCode, KeyEvent, KeyEventKind, KeyModifiers, WordMotion,
};
use beach::client::terminal::{
    CopyModeKeySet, CopyModePendingInput, CopyModeSearchDirection, CopyModeState,
};

fn pos(row: u64, col: usize) -> SelectionPosition {
    SelectionPosition { row, col }
}

fn renderer_with(lines: &[&str]) -> GridRenderer {
    let mut renderer = GridRenderer::new(0, 20);
    renderer.on_resize(20, 5);
    for (i, line) in lines.iter().enumerate() {
        renderer.apply_row_from_text(i, 1, line);
    }
    renderer
}

fn key(code: KeyCode) -> KeyEvent {
    KeyEvent {
        code,
        modifiers: KeyModifiers::none(),
        kind: KeyEventKind::Press,
    }
}

#[test]
fn word_motions_cross_rows() {
    let r = renderer_with(&["foo bar", "", "  baz_1 qux"]);
    assert_eq!(find_word_forward(&r, pos(0, 0), ForwardWordKind::Start), Some(pos(0, 4)));
    assert_eq!(find_word_forward(&r, pos(0, 4), ForwardWordKind::Start), Some(pos(2, 2)));
    assert_eq!(find_word_forward(&r, pos(0, 4), ForwardWordKind::End), Some(pos(0, 6)));
    assert_eq!(find_word_forward(&r, pos(2, 8), ForwardWordKind::Start), None);
    assert_eq!(find_word_backward(&r, pos(2, 2), ), Some(pos(0, 4)));
    assert_eq!(find_word_backward(&r, pos(0, 4)), Some(pos(0, 0)));
    assert_eq!(find_word_backward(&r, pos(0, 0)), None);
}

#[test]
fn copy_mode_starts_at_the_bottom_of_the_viewport() {
    let r = renderer_with(&["one", "two"]);
    assert_eq!(copy_mode_start_position(&r), Some(pos(1, 0)));
    let empty = GridRenderer::new(0, 20);
    assert_eq!(copy_mode_start_position(&empty), None);
}

#[test]
fn cursor_moves_are_clamped_to_the_text() {
    let mut r = renderer_with(&["hello", "hi"]);
    let mut state = CopyModeState::new(pos(0, 0), CopyModeKeySet::Vi);
    move_copy_cursor(&mut r, &mut state, 0, 10);
    assert_eq!(state.cursor, pos(0, 4));
    assert_eq!(state.anchor, pos(0, 4));
    move_copy_cursor(&mut r, &mut state, 5, 0);
    assert_eq!(state.cursor, pos(1, 1));
    move_copy_cursor_line_start(&mut r, &mut state);
    assert_eq!(state.cursor, pos(1, 0));
    move_copy_cursor_line_end(&mut r, &mut state);
    assert_eq!(state.cursor, pos(1, 1));
    jump_copy_cursor_to_top(&mut r, &mut state);
    assert_eq!(state.cursor, pos(0, 0));
    jump_copy_cursor_to_bottom(&mut r, &mut state);
    assert_eq!(state.cursor, pos(1, 0));
    assert!(!r.is_following_tail());
}

#[test]
fn an_active_selection_keeps_its_anchor_and_is_shown() {
    let mut r = renderer_with(&["alpha beta"]);
    let mut state = CopyModeState::new(pos(0, 0), CopyModeKeySet::Vi);
    apply_selection_command(&mut state, CopyModeCommand::BeginSelection);
    set_copy_cursor_position(&mut r, &mut state, pos(0, 4), true);
    assert_eq!(state.anchor, pos(0, 0));
    let sel = r.selection().unwrap();
    assert_eq!((sel.anchor, sel.head, sel.mode), (pos(0, 0), pos(0, 4), SelectionMode::Character));
    move_copy_cursor_word(&mut r, &mut state, WordMotion::NextStart);
    assert_eq!(state.cursor, pos(0, 6));
    apply_selection_command(&mut state, CopyModeCommand::ToggleSelection);
    assert!(!state.selection_active);
    set_copy_cursor_position(&mut r, &mut state, pos(0, 2), false);
    assert!(r.selection().is_none());
}

#[test]
fn selection_mode_commands() {
    let mut state = CopyModeState::new(pos(3, 1), CopyModeKeySet::Vi);
    apply_selection_command(&mut state, CopyModeCommand::SetSelectionMode(SelectionMode::Line));
    assert!(state.selection_active);
    assert_eq!(state.selection_mode, SelectionMode::Line);
    apply_selection_command(&mut state, CopyModeCommand::SetSelectionMode(SelectionMode::Line));
    assert_eq!(state.selection_mode, SelectionMode::Character);
    apply_selection_command(&mut state, CopyModeCommand::SetSelectionMode(SelectionMode::Block));
    assert_eq!(state.selection_mode, SelectionMode::Block);
    apply_selection_command(&mut state, CopyModeCommand::ClearSelection);
    assert!(!state.selection_active);
    assert_eq!(state.selection_mode, SelectionMode::Character);
    apply_selection_command(&mut state, CopyModeCommand::SetMode(CopyModeKeySet::Emacs));
    assert_eq!(state.mode, CopyModeKeySet::Emacs);
}

#[test]
fn typing_a_search_pattern() {
    let mut state = CopyModeState::new(pos(0, 0), CopyModeKeySet::Vi);
    assert!(matches!(handle_pending_search_key(&mut state, &key(KeyCode::Char('x'))), PendingSearchOutcome::NotPending));
    start_search(&mut state, CopyModeSearchDirection::Backward);
    assert!(matches!(handle_pending_search_key(&mut state, &key(KeyCode::Char('a'))), PendingSearchOutcome::Edited));
    assert!(matches!(handle_pending_search_key(&mut state, &key(KeyCode::Char('b'))), PendingSearchOutcome::Edited));
    assert!(matches!(handle_pending_search_key(&mut state, &key(KeyCode::Backspace)), PendingSearchOutcome::Edited));
    let ctrl_c = KeyEvent {
        modifiers: KeyModifiers { control: true, ..KeyModifiers::none() },
        ..key(KeyCode::Char('c'))
    };
    assert!(matches!(handle_pending_search_key(&mut state, &ctrl_c), PendingSearchOutcome::Ignored));
    match &state.pending_input {
        Some(CopyModePendingInput::Search { buffer, .. }) => assert_eq!(buffer, "a"),
        None => panic!("pattern dropped"),
    }
    match handle_pending_search_key(&mut state, &key(KeyCode::Enter)) {
        PendingSearchOutcome::Submitted { direction, pattern } => {
            assert_eq!(direction, CopyModeSearchDirection::Backward);
            assert_eq!(pattern, "a");
        }
        other => panic!("unexpected {:?}", other),
    }
    assert!(state.pending_input.is_none());
}

#[test]
fn search_texts() {
    assert_eq!(search_prompt(CopyModeSearchDirection::Forward, "abc"), "/abc");
    assert_eq!(search_prompt(CopyModeSearchDirection::Backward, ""), "?");
    assert_eq!(search_not_found_message("xyz"), "copy-mode: \"xyz\" not found");
    assert_eq!(copy_mode_highlight(false), "ESC exit • CTRL+Q quit");
    assert_eq!(copy_mode_highlight(true), "ESC exit • CTRL+C copy • CTRL+Q quit");
    assert_eq!(
        repeat_direction(CopyModeSearchDirection::Forward, CopyModeSearchDirection::Backward),
        CopyModeSearchDirection::Backward
    );
    assert_eq!(
        repeat_direction(CopyModeSearchDirection::Backward, CopyModeSearchDirection::Forward),
        CopyModeSearchDirection::Backward
    );
}

use beach::client::grid_renderer::{GridRenderer, SelectionPosition};
use beach::client::terminal::keys::{
    CopyModeCommand, KeyBinding, KeyCode, KeyEvent, KeyEventKind, KeyModifiers, MouseButton, MouseEvent,
    MouseEventKind,
};
use beach::client::terminal::scrollback::{
    handle_control_shortcuts, ClientView, CommandEffect, CopyKeyStep, PrefixOutcome,
};
use beach::client::terminal::view::ViewMode;
use beach::client::terminal::{CopyModeKeySet, CopyModePendingInput, CopyModeSearchDirection};

fn renderer() -> GridRenderer {
    let mut renderer = GridRenderer::new(50, 20);
    renderer.on_resize(20, 12);
    renderer
}

fn view() -> ClientView {
    ClientView::new(false, Vec::new(), CopyModeKeySet::Vi)
}

fn key(code: KeyCode, control: bool) -> KeyEvent {
    KeyEvent {
        code,
        modifiers: KeyModifiers {
            shift: false,
            control,
            alt: false,
            super_key: false,
            hyper: false,
            meta: false,
        },
        kind: KeyEventKind::Press,
    }
}

#[test]
fn entering_copy_mode_starts_at_the_bottom_of_the_viewport() {
    let mut renderer = renderer();
    let mut view = view();
    view.enter_copy_mode(&mut renderer, 100);
    let state = view.copy_mode.as_ref().expect("copy mode");
    assert_eq!(state.cursor, SelectionPosition { row: 49, col: 0 });
    assert!(!state.selection_active);
    assert_eq!(view.view_mode, ViewMode::Scrollback);
    assert!(view.mouse_capture);
    assert!(view.force_render);
    assert!(!renderer.is_following_tail());
    assert_eq!(renderer.status_message(), Some("scrollback".to_string()));
    assert_eq!(renderer.status_highlight(), Some("ESC exit • CTRL+Q quit".to_string()));
}

#[test]
fn leaving_copy_mode_returns_to_the_tail_with_a_flash() {
    let mut renderer = renderer();
    let mut view = view();
    view.enter_copy_mode(&mut renderer, 100);
    view.exit_copy_mode(&mut renderer, 200);
    assert!(view.copy_mode.is_none());
    assert!(!view.mouse_capture);
    assert_eq!(view.view_mode, ViewMode::Tail);
    assert_eq!(view.tail_flash_until, Some(3_200));
    assert!(renderer.is_following_tail());
    assert_eq!(renderer.status_message(), Some("tail".to_string()));
    assert_eq!(renderer.status_highlight(), Some("TAIL • CTRL+Q quit".to_string()));
}

#[test]
fn the_tail_flash_ends_when_its_time_is_up() {
    let mut renderer = renderer();
    let mut view = view();
    view.enter_copy_mode(&mut renderer, 100);
    view.exit_copy_mode(&mut renderer, 200);
    view.maybe_update_tail_flash(&mut renderer, 1_000);
    assert_eq!(view.tail_flash_until, Some(3_200));
    view.maybe_update_tail_flash(&mut renderer, 3_200);
    assert_eq!(view.tail_flash_until, None);
    assert_eq!(renderer.status_highlight(), Some("CTRL+Q quit".to_string()));
}

#[test]
fn scrolling_up_enters_copy_mode_and_moves_the_cursor_along() {
    let mut renderer = renderer();
    let mut view = view();
    let moved = view.apply_scroll_delta(&mut renderer, -5, true, 100);
    assert_eq!(moved, -5);
    assert_eq!(renderer.viewport_top(), 35);
    let state = view.copy_mode.as_ref().expect("copy mode");
    assert_eq!(state.cursor, SelectionPosition { row: 44, col: 0 });
    assert_eq!(view.view_mode, ViewMode::Scrollback);
}

#[test]
fn scrolling_back_to_the_bottom_leaves_copy_mode() {
    let mut renderer = renderer();
    let mut view = view();
    assert_eq!(view.apply_scroll_delta(&mut renderer, -5, true, 100), -5);
    assert_eq!(view.apply_scroll_delta(&mut renderer, 5, false, 200), 5);
    assert!(view.copy_mode.is_none());
    assert_eq!(view.view_mode, ViewMode::Tail);
    assert!(renderer.is_following_tail());
}

#[test]
fn scrolling_without_copy_mode_only_moves_the_viewport() {
    let mut renderer = renderer();
    let mut view = view();
    assert_eq!(view.apply_scroll_delta(&mut renderer, -3, false, 100), -3);
    assert!(view.copy_mode.is_none());
    assert_eq!(view.view_mode, ViewMode::Scrollback);
    assert_eq!(renderer.status_message(), Some("scrollback".to_string()));
    assert_eq!(view.apply_scroll_delta(&mut renderer, 0, false, 100), 0);
}

#[test]
fn a_page_up_in_copy_mode_scrolls_a_viewport() {
    let mut renderer = renderer();
    let mut view = view();
    view.enter_copy_mode(&mut renderer, 100);
    view.move_copy_cursor_page(&mut renderer, -1, 100);
    assert_eq!(renderer.viewport_top(), 30);
    assert_eq!(view.copy_mode.as_ref().unwrap().cursor, SelectionPosition { row: 39, col: 0 });
    view.move_copy_cursor_half_page(&mut renderer, -1, 100);
    assert_eq!(renderer.viewport_top(), 25);
}

#[test]
fn a_page_at_the_top_moves_the_cursor_instead() {
    let mut renderer = renderer();
    let mut view = view();
    view.enter_copy_mode(&mut renderer, 100);
    view.execute_copy_mode_command(&mut renderer, CopyModeCommand::JumpTop, 100);
    assert_eq!(renderer.viewport_top(), 0);
    view.execute_copy_mode_command(&mut renderer, CopyModeCommand::Move { rows: 5, cols: 0 }, 100);
    assert_eq!(view.copy_mode.as_ref().unwrap().cursor.row, 5);
    view.move_copy_cursor_page(&mut renderer, -1, 100);
    assert_eq!(renderer.viewport_top(), 0);
    assert_eq!(view.copy_mode.as_ref().unwrap().cursor.row, 0);
}

#[test]
fn drags_at_the_edges_scroll_in_copy_mode() {
    let mut renderer = renderer();
    let mut view = view();
    view.maybe_auto_scroll_drag(&mut renderer, 0, 100);
    assert_eq!(renderer.viewport_top(), 40);
    view.enter_copy_mode(&mut renderer, 100);
    view.maybe_auto_scroll_drag(&mut renderer, 0, 100);
    assert_eq!(renderer.viewport_top(), 39);
    view.maybe_auto_scroll_drag(&mut renderer, 5, 100);
    assert_eq!(renderer.viewport_top(), 39);
}

#[test]
fn the_tmux_prefix_enters_copy_mode_and_pastes() {
    let mut renderer = renderer();
    let mut view = view();
    assert_eq!(
        view.handle_tmux_prefix(&mut renderer, &key(KeyCode::Char('b'), true), 0),
        PrefixOutcome::Handled
    );
    assert_eq!(
        view.handle_tmux_prefix(&mut renderer, &key(KeyCode::Char('['), false), 100),
        PrefixOutcome::Handled
    );
    assert!(view.copy_mode.is_some());
    assert_eq!(
        view.handle_tmux_prefix(&mut renderer, &key(KeyCode::Char('B'), true), 200),
        PrefixOutcome::Handled
    );
    assert_eq!(
        view.handle_tmux_prefix(&mut renderer, &key(KeyCode::Char(']'), false), 300),
        PrefixOutcome::Paste
    );
    assert_eq!(
        view.handle_tmux_prefix(&mut renderer, &key(KeyCode::Char(']'), false), 400),
        PrefixOutcome::NotHandled
    );
}

#[test]
fn the_tmux_prefix_expires() {
    let mut renderer = renderer();
    let mut view = view();
    view.handle_tmux_prefix(&mut renderer, &key(KeyCode::Char('b'), true), 0);
    assert_eq!(
        view.handle_tmux_prefix(&mut renderer, &key(KeyCode::Char('['), false), 600),
        PrefixOutcome::NotHandled
    );
    assert!(view.copy_mode.is_none());
}

#[test]
fn prefix_page_up_enters_copy_mode_a_page_up() {
    let mut renderer = renderer();
    let mut view = view();
    view.handle_tmux_prefix(&mut renderer, &key(KeyCode::Char('b'), true), 0);
    view.handle_tmux_prefix(&mut renderer, &key(KeyCode::PageUp, false), 10);
    assert!(view.copy_mode.is_some());
    assert_eq!(renderer.viewport_top(), 30);
}

#[test]
fn selection_commands_show_the_selection_and_status() {
    let mut renderer = renderer();
    let mut view = view();
    view.enter_copy_mode(&mut renderer, 100);
    let effect = view.execute_copy_mode_command(&mut renderer, CopyModeCommand::BeginSelection, 100);
    assert_eq!(effect, CommandEffect::Nothing);
    assert!(view.copy_mode.as_ref().unwrap().selection_active);
    assert!(renderer.selection().is_some());
    assert_eq!(
        renderer.status_highlight(),
        Some("ESC exit • CTRL+C copy • CTRL+Q quit".to_string())
    );
    assert_eq!(
        view.execute_copy_mode_command(&mut renderer, CopyModeCommand::CopySelectionAndExit, 100),
        CommandEffect::Copy { exit_after: true }
    );
    view.execute_copy_mode_command(&mut renderer, CopyModeCommand::ClearSelection, 100);
    assert!(renderer.selection().is_none());
    view.execute_copy_mode_command(&mut renderer, CopyModeCommand::Cancel, 100);
    assert!(view.copy_mode.is_none());
}

#[test]
fn a_search_command_starts_typing_a_pattern() {
    let mut renderer = renderer();
    let mut view = view();
    view.enter_copy_mode(&mut renderer, 100);
    view.execute_copy_mode_command(
        &mut renderer,
        CopyModeCommand::Search(CopyModeSearchDirection::Backward),
        100,
    );
    match &view.copy_mode.as_ref().unwrap().pending_input {
        Some(CopyModePendingInput::Search { direction, buffer }) => {
            assert_eq!(*direction, CopyModeSearchDirection::Backward);
            assert!(buffer.is_empty());
        }
        None => panic!("no search pending"),
    }
    assert_eq!(renderer.status_message(), Some("?".to_string()));
    assert_eq!(
        view.execute_copy_mode_command(
            &mut renderer,
            CopyModeCommand::RepeatLastSearch(CopyModeSearchDirection::Forward),
            100
        ),
        CommandEffect::Nothing
    );
}

fn alt(code: KeyCode) -> KeyEvent {
    let mut event = key(code, false);
    event.modifiers.alt = true;
    event
}

#[test]
fn copy_mode_keys_run_their_commands() {
    let mut renderer = renderer();
    let mut view = view();
    view.enter_copy_mode(&mut renderer, 100);
    let (step, pattern) = view.process_copy_mode_key(&mut renderer, &key(KeyCode::Char('k'), false), &Vec::new(), 100);
    assert_eq!(step, CopyKeyStep::Handled);
    assert!(pattern.is_none());
    assert_eq!(view.copy_mode.as_ref().unwrap().cursor.row, 48);
    let (step, _) = view.process_copy_mode_key(&mut renderer, &key(KeyCode::Enter, false), &Vec::new(), 100);
    assert_eq!(step, CopyKeyStep::Copy { exit_after: true });
}

#[test]
fn keys_outside_copy_mode_can_enter_it() {
    let mut renderer = renderer();
    let mut view = view();
    let (step, _) = view.process_copy_mode_key(&mut renderer, &key(KeyCode::Char('x'), false), &Vec::new(), 100);
    assert_eq!(step, CopyKeyStep::NotHandled);
    assert!(view.copy_mode.is_none());
    let (step, _) = view.process_copy_mode_key(&mut renderer, &alt(KeyCode::Char('[')), &Vec::new(), 100);
    assert_eq!(step, CopyKeyStep::Handled);
    assert!(view.copy_mode.is_some());
    let mut renderer = self::renderer();
    let mut view = self::view();
    let (step, _) = view.process_copy_mode_key(&mut renderer, &key(KeyCode::PageUp, false), &Vec::new(), 100);
    assert_eq!(step, CopyKeyStep::Handled);
    assert_eq!(renderer.viewport_top(), 30);
}

#[test]
fn a_search_pattern_is_typed_edited_and_submitted() {
    let mut renderer = renderer();
    let mut view = view();
    view.enter_copy_mode(&mut renderer, 100);
    let none: Vec<KeyBinding> = Vec::new();
    view.process_copy_mode_key(&mut renderer, &key(KeyCode::Char('/'), false), &none, 100);
    view.process_copy_mode_key(&mut renderer, &key(KeyCode::Char('a'), false), &none, 100);
    view.process_copy_mode_key(&mut renderer, &key(KeyCode::Char('b'), false), &none, 100);
    assert_eq!(renderer.status_message(), Some("/ab".to_string()));
    view.process_copy_mode_key(&mut renderer, &key(KeyCode::Backspace, false), &none, 100);
    assert_eq!(renderer.status_message(), Some("/a".to_string()));
    let (step, pattern) = view.process_copy_mode_key(&mut renderer, &key(KeyCode::Enter, false), &none, 100);
    assert_eq!(step, CopyKeyStep::Search(CopyModeSearchDirection::Forward));
    assert_eq!(pattern, Some("a".to_string()));
    assert!(view.copy_mode.as_ref().unwrap().pending_input.is_none());
}

#[test]
fn escape_drops_a_search_pattern() {
    let mut renderer = renderer();
    let mut view = view();
    view.enter_copy_mode(&mut renderer, 100);
    let none: Vec<KeyBinding> = Vec::new();
    view.process_copy_mode_key(&mut renderer, &key(KeyCode::Char('?'), false), &none, 100);
    let (step, _) = view.process_copy_mode_key(&mut renderer, &key(KeyCode::Esc, false), &none, 100);
    assert_eq!(step, CopyKeyStep::Handled);
    assert!(view.copy_mode.as_ref().unwrap().pending_input.is_none());
    assert_eq!(renderer.status_message(), Some("scrollback".to_string()));
}

#[test]
fn a_copy_shortcut_copies_and_leaves() {
    let mut renderer = renderer();
    let mut view = view();
    view.enter_copy_mode(&mut renderer, 100);
    let shortcut = KeyBinding {
        code: KeyCode::Char('c'),
        modifiers: key(KeyCode::Char('c'), true).modifiers,
    };
    let (step, _) = view.process_copy_mode_key(&mut renderer, &key(KeyCode::Char('c'), true), &vec![shortcut], 100);
    assert_eq!(step, CopyKeyStep::Copy { exit_after: true });
}

fn mouse(kind: MouseEventKind, column: u16, row: u16) -> MouseEvent {
    MouseEvent { kind, column, row, modifiers: key(KeyCode::Esc, false).modifiers }
}

#[test]
fn double_escape_toggles_copy_mode_in_and_out() {
    let mut renderer = renderer();
    let mut view = ClientView::new(true, Vec::new(), CopyModeKeySet::Vi);
    assert!(!view.handle_scroll_toggle(&mut renderer, &key(KeyCode::Esc, false), 0));
    assert_eq!(view.last_plain_esc, Some(0));
    assert!(view.handle_scroll_toggle(&mut renderer, &key(KeyCode::Esc, false), 100));
    assert!(view.copy_mode.is_some());
    assert_eq!(view.view_mode, ViewMode::Scrollback);
    assert!(!view.handle_scroll_toggle(&mut renderer, &key(KeyCode::Esc, false), 1_000));
    assert!(view.handle_scroll_toggle(&mut renderer, &key(KeyCode::Esc, false), 1_200));
    assert!(view.copy_mode.is_none());
    assert_eq!(view.view_mode, ViewMode::Tail);
    assert!(renderer.is_following_tail());
}

#[test]
fn the_toggle_returns_to_the_tail_from_scrollback() {
    let mut renderer = renderer();
    let binding = KeyBinding { code: KeyCode::Char('t'), modifiers: key(KeyCode::Char('t'), true).modifiers };
    let mut view = ClientView::new(false, vec![binding], CopyModeKeySet::Vi);
    view.apply_scroll_delta(&mut renderer, -3, false, 0);
    assert_eq!(view.view_mode, ViewMode::Scrollback);
    assert!(view.handle_scroll_toggle(&mut renderer, &key(KeyCode::Char('t'), true), 10));
    assert_eq!(view.view_mode, ViewMode::Tail);
    assert!(renderer.is_following_tail());
    assert_eq!(renderer.viewport_top(), 40);
}

#[test]
fn the_toggle_reports_missing_scrollback() {
    let mut renderer = GridRenderer::new(0, 20);
    renderer.on_resize(20, 12);
    let binding = KeyBinding { code: KeyCode::Char('t'), modifiers: key(KeyCode::Char('t'), true).modifiers };
    let mut view = ClientView::new(false, vec![binding], CopyModeKeySet::Vi);
    assert!(view.handle_scroll_toggle(&mut renderer, &key(KeyCode::Char('t'), true), 10));
    assert!(view.copy_mode.is_none());
    assert_eq!(renderer.status_for_test(), (Some("scrollback unavailable".to_string()), true));
}

#[test]
fn the_wheel_scrolls_and_the_primary_button_selects() {
    let mut renderer = renderer();
    let mut view = view();
    assert!(!view.handle_mouse_event(&mut renderer, &mouse(MouseEventKind::Down(MouseButton::Left), 3, 2), 0));
    assert!(view.handle_mouse_event(&mut renderer, &mouse(MouseEventKind::ScrollUp, 0, 0), 0));
    assert_eq!(renderer.viewport_top(), 35);
    assert!(view.copy_mode.is_some());
    assert!(view.handle_mouse_event(&mut renderer, &mouse(MouseEventKind::Down(MouseButton::Left), 3, 2), 0));
    assert_eq!(view.copy_mode.as_ref().unwrap().cursor, SelectionPosition { row: 37, col: 0 });
    assert!(view.copy_mode.as_ref().unwrap().selection_active);
    assert!(view.handle_mouse_event(&mut renderer, &mouse(MouseEventKind::Drag(MouseButton::Left), 3, 4), 0));
    let state = view.copy_mode.as_ref().unwrap();
    assert_eq!(state.anchor, SelectionPosition { row: 37, col: 0 });
    assert_eq!(state.cursor, SelectionPosition { row: 39, col: 0 });
    assert!(view.handle_mouse_event(&mut renderer, &mouse(MouseEventKind::Up(MouseButton::Left), 3, 4), 0));
    assert!(!view.handle_mouse_event(&mut renderer, &mouse(MouseEventKind::Moved, 3, 4), 0));
    assert!(view.handle_mouse_event(&mut renderer, &mouse(MouseEventKind::ScrollDown, 0, 0), 0));
    assert_eq!(renderer.viewport_top(), 40);
}

#[test]
fn ctrl_q_quits_and_super_k_clears() {
    assert!(handle_control_shortcuts(&key(KeyCode::Char('q'), true)));
    assert!(handle_control_shortcuts(&key(KeyCode::Char('Q'), true)));
    assert!(!handle_control_shortcuts(&key(KeyCode::Char('q'), false)));
    let mut renderer = renderer();
    let mut view = view();
    let mut super_k = key(KeyCode::Char('k'), false);
    super_k.modifiers.super_key = true;
    assert!(view.handle_super_shortcuts(&mut renderer, &super_k));
    assert!(view.force_render);
    let mut view = self::view();
    assert!(!view.handle_super_shortcuts(&mut renderer, &key(KeyCode::Char('k'), true)));
    assert!(!view.force_render);
}

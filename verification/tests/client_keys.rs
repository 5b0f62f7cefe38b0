use beach::client::grid_renderer::{GridRenderer, SelectionMode, SelectionPosition};
use beach::client::terminal::copy::copy_status_message;
use beach::client::terminal::keys::{
    default_copy_shortcut_bindings, default_scroll_toggle_bindings, KeyBinding, KeyCode, KeyEvent, KeyEventKind,
    KeyModifiers, MouseButton, MouseEvent, MouseEventKind,
};
use beach::client::terminal::scrollback::{ClientView, CopyKeyStep, TMUX_PREFIX_TIMEOUT_MS};
use beach::client::terminal::view::ViewMode;
use beach::client::terminal::{CopyModeKeySet, CopyModeState};

/// The renderer and view state of a freshly started client.
fn new_client() -> (ClientView, GridRenderer) {
    let mut renderer = GridRenderer::new(0, 0);
    renderer.on_resize(80, 24);
    renderer.set_predictions_visible(false);
    renderer.set_prediction_flagging(false);
    renderer.set_follow_tail(false);
    let view = ClientView::new(true, default_scroll_toggle_bindings(), CopyModeKeySet::Vi);
    (view, renderer)
}

fn modifiers(shift: bool, control: bool, super_key: bool) -> KeyModifiers {
    KeyModifiers { shift, control, alt: false, super_key, hyper: false, meta: false }
}

fn none() -> KeyModifiers {
    modifiers(false, false, false)
}

fn control() -> KeyModifiers {
    modifiers(false, true, false)
}

fn key(code: KeyCode, modifiers: KeyModifiers) -> KeyEvent {
    KeyEvent { code, modifiers, kind: KeyEventKind::Press }
}

fn shortcuts() -> Vec<KeyBinding> {
    default_copy_shortcut_bindings()
}

fn press(view: &mut ClientView, renderer: &mut GridRenderer, event: KeyEvent, now: u64) -> CopyKeyStep {
    view.process_copy_mode_key(renderer, &event, &shortcuts(), now).0
}

fn fill_lines(renderer: &mut GridRenderer, rows: usize) {
    for row in 0..rows {
        let text = format!("line {row:02}");
        renderer.apply_row_from_text(row, (row + 1) as u64, &text);
    }
}

fn start_copy_mode_at(view: &mut ClientView, renderer: &mut GridRenderer, row: u64, col: usize) {
    view.copy_mode = Some(CopyModeState::new(SelectionPosition { row, col }, CopyModeKeySet::Vi));
    renderer.set_follow_tail(false);
    view.update_copy_mode_status(renderer);
}

fn cursor(view: &ClientView) -> SelectionPosition {
    view.copy_mode.as_ref().unwrap().cursor
}

#[test]
fn vi_word_motions_navigate_between_words() {
    let (mut view, mut renderer) = new_client();
    renderer.ensure_size(3, 32);
    renderer.apply_row_from_text(0, 1, "alpha beta  gamma");
    start_copy_mode_at(&mut view, &mut renderer, 0, 0);

    press(&mut view, &mut renderer, key(KeyCode::Char('w'), none()), 0);
    assert_eq!(cursor(&view).row, 0);
    assert_eq!(cursor(&view).col, 6);

    press(&mut view, &mut renderer, key(KeyCode::Char('b'), none()), 0);
    assert_eq!(cursor(&view).row, 0);
    assert_eq!(cursor(&view).col, 0);

    press(&mut view, &mut renderer, key(KeyCode::Char('e'), none()), 0);
    assert_eq!(cursor(&view).row, 0);
    assert_eq!(cursor(&view).col, 4);
}

#[test]
fn vi_half_page_motions_respect_viewport() {
    let (mut view, mut renderer) = new_client();
    renderer.on_resize(80, 8);
    renderer.ensure_size(12, 32);
    fill_lines(&mut renderer, 12);
    start_copy_mode_at(&mut view, &mut renderer, 6, 0);

    press(&mut view, &mut renderer, key(KeyCode::Char('u'), control()), 0);
    assert_eq!(cursor(&view).row, 3);

    press(&mut view, &mut renderer, key(KeyCode::Char('d'), control()), 0);
    assert_eq!(cursor(&view).row, 6);
}

#[test]
fn mouse_scroll_selection_stays_anchored() {
    let (mut view, mut renderer) = new_client();
    renderer.on_resize(80, 4);
    renderer.ensure_size(6, 32);
    fill_lines(&mut renderer, 6);
    renderer.scroll_to_tail();

    view.enter_copy_mode(&mut renderer, 0);
    view.copy_mode.as_mut().unwrap().begin_selection(SelectionMode::Character);

    view.execute_copy_mode_command(
        &mut renderer,
        beach::client::terminal::keys::CopyModeCommand::Move { rows: -1, cols: 0 },
        0,
    );
    let initial_row = cursor(&view).row;
    assert_eq!(initial_row, 4);

    let before_top = renderer.viewport_top();
    let viewport_height = renderer.viewport_height() as u64;
    view.apply_scroll_delta(&mut renderer, -20, true, 0);
    let after_top = renderer.viewport_top();
    let after_cursor = cursor(&view).row;
    assert_eq!(
        before_top + viewport_height,
        renderer.total_rows(),
        "tail view should start where visible rows cover the end of the buffer"
    );
    assert_eq!(after_top, 0, "viewport should still move while selection active");
    assert_eq!(after_cursor, initial_row, "selection cursor should remain anchored while scrolling");

    view.apply_scroll_delta(&mut renderer, 20, true, 0);
    if let Some(state) = view.copy_mode.as_ref() {
        assert_eq!(state.cursor.row, initial_row, "reverse scroll should restore cursor row");
    } else {
        assert!(renderer.is_following_tail());
    }
}

#[test]
fn mouse_drag_edges_autoscroll_copy_mode() {
    let (mut view, mut renderer) = new_client();
    renderer.on_resize(80, 4);
    renderer.ensure_size(12, 32);
    fill_lines(&mut renderer, 12);
    renderer.scroll_to_tail();

    view.enter_copy_mode(&mut renderer, 0);
    view.copy_mode.as_mut().unwrap().begin_selection(SelectionMode::Character);

    let initial_cursor = cursor(&view).row;
    assert_eq!(initial_cursor, renderer.viewport_top() + renderer.viewport_height() as u64 - 1);

    let drag_top = MouseEvent { kind: MouseEventKind::Drag(MouseButton::Left), column: 0, row: 0, modifiers: none() };
    view.handle_mouse_event(&mut renderer, &drag_top, 0);
    let after_up = cursor(&view).row;
    assert!(after_up < initial_cursor, "cursor should move upward when dragging at top edge");

    let bottom_row = renderer.viewport_height().saturating_sub(1) as u16;
    let drag_bottom =
        MouseEvent { kind: MouseEventKind::Drag(MouseButton::Left), column: 0, row: bottom_row, modifiers: none() };
    view.handle_mouse_event(&mut renderer, &drag_bottom, 0);
    if let Some(state) = view.copy_mode.as_ref() {
        assert!(state.cursor.row >= after_up, "cursor should move downward when dragging at bottom edge");
    } else {
        assert!(renderer.is_following_tail());
    }
}

fn paged_client(rows: usize) -> (ClientView, GridRenderer) {
    let (view, mut renderer) = new_client();
    renderer.on_resize(80, 6);
    renderer.ensure_size(rows, 32);
    fill_lines(&mut renderer, rows);
    renderer.scroll_to_tail();
    (view, renderer)
}

#[test]
fn page_up_enters_copy_mode_and_scrolls() {
    let (mut view, mut renderer) = paged_client(40);
    let before_top = renderer.viewport_top();
    assert!(view.copy_mode.is_none());

    press(&mut view, &mut renderer, key(KeyCode::PageUp, none()), 0);

    assert!(view.copy_mode.is_some(), "PageUp should enter copy mode");
    let viewport = renderer.viewport_height() as u64;
    let after_top = renderer.viewport_top();
    assert_eq!(after_top, before_top.saturating_sub(viewport), "viewport should move up by one page");
    assert_eq!(
        cursor(&view).row,
        after_top + viewport.saturating_sub(1),
        "cursor should land on bottom row of new viewport"
    );
}

#[test]
fn page_up_clamps_to_history_base() {
    let (mut view, mut renderer) = paged_client(40);
    renderer.set_base_row(10);
    renderer.scroll_to_tail();

    let before_top = renderer.viewport_top();
    press(&mut view, &mut renderer, key(KeyCode::PageUp, none()), 0);

    let viewport = renderer.viewport_height() as u64;
    let expected_top = before_top.saturating_sub(viewport).max(renderer.base_row());
    assert_eq!(renderer.viewport_top(), expected_top);
    assert!(view.copy_mode.is_some());
}

#[test]
fn page_down_exits_copy_mode_at_tail() {
    let (mut view, mut renderer) = paged_client(40);
    press(&mut view, &mut renderer, key(KeyCode::PageUp, none()), 0);
    assert!(view.copy_mode.is_some());

    press(&mut view, &mut renderer, key(KeyCode::PageDown, none()), 0);

    assert!(view.copy_mode.is_none(), "PageDown at tail should exit copy mode");
    assert!(renderer.is_following_tail());
}

#[test]
fn ctrl_b_bracket_enters_copy_mode() {
    let (mut view, mut renderer) = paged_client(10);
    assert!(view.copy_mode.is_none());
    press(&mut view, &mut renderer, key(KeyCode::Char('b'), control()), 0);
    assert!(view.copy_mode.is_none(), "prefix should not enter copy mode yet");

    press(&mut view, &mut renderer, key(KeyCode::Char('['), none()), 10);
    assert!(view.copy_mode.is_some(), "Ctrl-B [ should enter copy mode");
}

#[test]
fn ctrl_b_page_up_pages_copy_mode() {
    let (mut view, mut renderer) = paged_client(30);
    let before_top = renderer.viewport_top();

    press(&mut view, &mut renderer, key(KeyCode::Char('b'), control()), 0);
    press(&mut view, &mut renderer, key(KeyCode::PageUp, none()), 10);

    assert!(view.copy_mode.is_some());
    let viewport = renderer.viewport_height() as u64;
    assert_eq!(renderer.viewport_top(), before_top.saturating_sub(viewport));
}

#[test]
fn ctrl_b_timeout_expires_prefix() {
    let (mut view, mut renderer) = paged_client(10);
    press(&mut view, &mut renderer, key(KeyCode::Char('b'), control()), 0);
    let later = TMUX_PREFIX_TIMEOUT_MS + 1;
    press(&mut view, &mut renderer, key(KeyCode::Char('['), none()), later);
    assert!(view.copy_mode.is_none(), "expired prefix should not enter copy mode");
}

#[test]
fn ctrl_b_right_bracket_pastes_clipboard() {
    let (mut view, mut renderer) = new_client();
    press(&mut view, &mut renderer, key(KeyCode::Char('b'), control()), 0);
    let step = press(&mut view, &mut renderer, key(KeyCode::Char(']'), none()), 10);
    assert_eq!(step, CopyKeyStep::Paste);
    let sent = view.paste_clipboard(&mut renderer, Ok("line1\nline2".to_string()));
    let frames: Vec<Vec<u8>> = sent.into_iter().collect();
    assert_eq!(frames.len(), 1, "expected single paste frame");
    assert_eq!(frames[0], b"line1\nline2".to_vec());
}

#[test]
fn ctrl_b_right_bracket_handles_empty_clipboard() {
    let (mut view, mut renderer) = new_client();
    press(&mut view, &mut renderer, key(KeyCode::Char('b'), control()), 0);
    let step = press(&mut view, &mut renderer, key(KeyCode::Char(']'), none()), 10);
    assert_eq!(step, CopyKeyStep::Paste);
    let sent = view.paste_clipboard(&mut renderer, Ok(String::new()));
    assert!(sent.is_none(), "no frames expected when clipboard empty");
    assert_eq!(renderer.status_message(), Some("clipboard empty".to_string()));
}

#[test]
fn vi_ctrl_v_switches_to_block_selection() {
    let (mut view, mut renderer) = new_client();
    renderer.ensure_size(2, 8);
    renderer.apply_row_from_text(0, 1, "abcd");
    renderer.apply_row_from_text(1, 2, "efgh");
    start_copy_mode_at(&mut view, &mut renderer, 1, 3);

    // Begin selection, move to the opposite corner, then toggle block mode.
    press(&mut view, &mut renderer, key(KeyCode::Char('v'), none()), 0);
    press(&mut view, &mut renderer, key(KeyCode::Char('k'), none()), 0);
    for _ in 0..3 {
        press(&mut view, &mut renderer, key(KeyCode::Char('h'), none()), 0);
    }
    press(&mut view, &mut renderer, key(KeyCode::Char('v'), control()), 0);

    let selected = renderer.selection_text().unwrap();
    assert_eq!(selected, "abcd\nefgh");
}

#[test]
fn vi_shift_v_enters_line_selection() {
    let (mut view, mut renderer) = new_client();
    renderer.ensure_size(2, 16);
    renderer.apply_row_from_text(0, 1, "alpha");
    renderer.apply_row_from_text(1, 2, "beta");
    start_copy_mode_at(&mut view, &mut renderer, 1, 2);

    press(&mut view, &mut renderer, key(KeyCode::Char('V'), modifiers(true, false, false)), 0);
    press(&mut view, &mut renderer, key(KeyCode::Char('k'), none()), 0);

    let selected = renderer.selection_text().unwrap();
    assert_eq!(selected, "alpha\nbeta");
}

/// What the client does after a copy key: the copy itself, with the
/// clipboard taking the text; the copied text is returned.
fn run_copy(view: &mut ClientView, renderer: &mut GridRenderer, step: CopyKeyStep) -> Option<String> {
    match step {
        CopyKeyStep::Copy { exit_after } => {
            let text = view.copy_selection(renderer, exit_after, 0)?;
            view.copy_done(renderer, &text, Ok(()), exit_after, 0);
            Some(text)
        }
        _ => None,
    }
}

#[test]
fn copy_mode_cmd_shortcut_exits_when_no_selection() {
    let (mut view, mut renderer) = new_client();
    renderer.ensure_size(1, 32);
    renderer.apply_row_from_text(0, 1, "sample text");
    start_copy_mode_at(&mut view, &mut renderer, 0, 0);

    assert!(view.copy_mode.is_some());
    let step = press(&mut view, &mut renderer, key(KeyCode::Char('c'), modifiers(false, false, true)), 0);
    assert_eq!(run_copy(&mut view, &mut renderer, step), None);
    assert!(view.copy_mode.is_none());
}

fn select_first_columns(view: &mut ClientView, renderer: &mut GridRenderer, last_col: usize) {
    if let Some(state) = view.copy_mode.as_mut() {
        state.selection_active = true;
        state.selection_mode = SelectionMode::Character;
        state.anchor = SelectionPosition { row: 0, col: 0 };
        state.cursor = SelectionPosition { row: 0, col: last_col };
    }
    renderer.set_selection(
        SelectionPosition { row: 0, col: 0 },
        SelectionPosition { row: 0, col: last_col },
        SelectionMode::Character,
    );
}

#[test]
fn ctrl_c_copies_selection_to_clipboard() {
    let (mut view, mut renderer) = new_client();
    renderer.ensure_size(1, 16);
    renderer.apply_row_from_text(0, 1, "hello world");
    start_copy_mode_at(&mut view, &mut renderer, 0, 0);
    select_first_columns(&mut view, &mut renderer, 4);

    let step = press(&mut view, &mut renderer, key(KeyCode::Char('c'), control()), 0);
    let copied = run_copy(&mut view, &mut renderer, step);

    assert!(view.copy_mode.is_none());
    assert_eq!(copied.expect("clipboard populated"), "hello");
    let (status, is_error) = renderer.status_for_test();
    assert_eq!(status.as_deref(), Some("copied 5 characters to clipboard"));
    assert!(!is_error);
}

#[test]
fn super_c_copies_selection_to_clipboard() {
    let (mut view, mut renderer) = new_client();
    renderer.ensure_size(1, 16);
    renderer.apply_row_from_text(0, 1, "goodbye");
    start_copy_mode_at(&mut view, &mut renderer, 0, 0);
    select_first_columns(&mut view, &mut renderer, 6);

    let step = press(&mut view, &mut renderer, key(KeyCode::Char('c'), modifiers(false, false, true)), 0);
    assert_ne!(step, CopyKeyStep::NotHandled);
    let copied = run_copy(&mut view, &mut renderer, step);
    assert!(view.copy_mode.is_none());
    assert_eq!(copied.expect("clipboard populated"), "goodbye");
}

#[test]
fn ctrl_esc_toggle_enters_and_exits_scrollback() {
    let (mut view, mut renderer) = new_client();
    renderer.ensure_size(2, 12);
    renderer.apply_row_from_text(0, 1, "hello");
    renderer.apply_row_from_text(1, 2, "world");
    renderer.set_follow_tail(true);

    let toggle = key(KeyCode::Esc, control());
    assert!(view.handle_scroll_toggle(&mut renderer, &toggle, 0));
    assert!(view.copy_mode.is_some());
    assert!(matches!(view.view_mode, ViewMode::Scrollback));
    let (status, is_error) = renderer.status_for_test();
    assert!(!is_error);
    let status = status.expect("scrollback status present");
    assert!(status.starts_with("scrollback"));

    assert!(view.handle_scroll_toggle(&mut renderer, &toggle, 10));
    assert!(view.copy_mode.is_none());
    assert!(matches!(view.view_mode, ViewMode::Tail));
    assert!(renderer.is_following_tail());
}

#[test]
fn double_esc_toggle_enters_scrollback() {
    let (mut view, mut renderer) = new_client();
    renderer.ensure_size(2, 12);
    renderer.apply_row_from_text(0, 1, "alpha");
    renderer.apply_row_from_text(1, 2, "beta");
    renderer.set_follow_tail(true);

    let esc = key(KeyCode::Esc, none());
    assert!(!view.handle_scroll_toggle(&mut renderer, &esc, 0));
    assert!(view.copy_mode.is_none());

    assert!(view.handle_scroll_toggle(&mut renderer, &esc, 10));
    assert!(view.copy_mode.is_some());
    assert!(matches!(view.view_mode, ViewMode::Scrollback));
}

#[test]
fn vi_q_exits_copy_mode() {
    let (mut view, mut renderer) = new_client();
    renderer.ensure_size(1, 16);
    renderer.apply_row_from_text(0, 1, "hello world");
    start_copy_mode_at(&mut view, &mut renderer, 0, 5);

    press(&mut view, &mut renderer, key(KeyCode::Char('q'), none()), 0);
    assert!(view.copy_mode.is_none());
}

#[test]
fn copy_messages_count_lines_or_characters() {
    assert_eq!(copy_status_message("a"), "copied 1 character to clipboard");
    assert_eq!(copy_status_message(""), "copied 0 characters to clipboard");
    assert_eq!(copy_status_message("hello"), "copied 5 characters to clipboard");
    assert_eq!(copy_status_message("a\nb"), "copied 2 lines to clipboard");
    assert_eq!(copy_status_message("a\n"), "copied 2 characters to clipboard");
    assert_eq!(copy_status_message("a\nb\n\nc"), "copied 4 lines to clipboard");
}

#[test]
fn copying_without_a_selection_shows_an_error() {
    let (mut view, mut renderer) = new_client();
    renderer.ensure_size(1, 16);
    renderer.apply_row_from_text(0, 1, "hello");
    start_copy_mode_at(&mut view, &mut renderer, 0, 0);
    assert_eq!(view.copy_selection(&mut renderer, false, 0), None);
    assert!(view.copy_mode.is_some());
    assert_eq!(
        renderer.status_for_test(),
        (Some("copy-mode: no active selection".to_string()), true)
    );
}

#[test]
fn a_refused_copy_shows_the_clipboard_error() {
    let (mut view, mut renderer) = new_client();
    renderer.ensure_size(1, 16);
    renderer.apply_row_from_text(0, 1, "hello world");
    start_copy_mode_at(&mut view, &mut renderer, 0, 0);
    select_first_columns(&mut view, &mut renderer, 4);
    let text = view.copy_selection(&mut renderer, true, 0).unwrap();
    view.copy_done(&mut renderer, &text, Err("no display".to_string()), true, 0);
    assert!(view.copy_mode.is_none());
    assert_eq!(renderer.status_for_test(), (Some("copy failed: no display".to_string()), true));
}

#[test]
fn copying_without_leaving_keeps_copy_mode() {
    let (mut view, mut renderer) = new_client();
    renderer.ensure_size(1, 16);
    renderer.apply_row_from_text(0, 1, "hello world");
    start_copy_mode_at(&mut view, &mut renderer, 0, 0);
    select_first_columns(&mut view, &mut renderer, 4);
    let text = view.copy_selection(&mut renderer, false, 0).unwrap();
    view.copy_done(&mut renderer, &text, Ok(()), false, 0);
    assert!(view.copy_mode.is_some());
    assert_eq!(renderer.status_message(), Some("scrollback".to_string()));
}

#[test]
fn an_unreadable_clipboard_or_failed_paste_shows_a_status() {
    let (mut view, mut renderer) = new_client();
    assert!(view.paste_clipboard(&mut renderer, Err("no display".to_string())).is_none());
    assert_eq!(renderer.status_message(), Some("clipboard unavailable".to_string()));
    view.paste_failed(&mut renderer);
    assert_eq!(renderer.status_for_test(), (Some("clipboard paste failed".to_string()), false));
}

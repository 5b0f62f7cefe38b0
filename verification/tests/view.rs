use beach::client::grid_renderer::{GridRenderer, SelectionPosition};
use beach::client::terminal::keys::{
    default_scroll_toggle_bindings, KeyBinding, KeyCode, KeyEvent, KeyEventKind, KeyModifiers,
    MouseEvent, MouseEventKind,
};
use beach::client::terminal::view::{
    drag_scroll, mouse_position_to_selection, scroll_toggle_press, synced_view_mode,
    tail_highlight_text, tail_status_highlight, toggle_action, ToggleAction, ViewMode,
};

fn press(code: KeyCode, modifiers: KeyModifiers) -> KeyEvent {
    KeyEvent {
        code,
        modifiers,
        kind: KeyEventKind::Press,
    }
}

#[test]
fn double_escape_toggles_within_the_window() {
    let bindings = default_scroll_toggle_bindings();
    let esc = press(KeyCode::Esc, KeyModifiers::none());
    assert_eq!(scroll_toggle_press(&bindings, true, None, &esc, 1_000), (false, Some(1_000)));
    assert_eq!(scroll_toggle_press(&bindings, true, Some(1_000), &esc, 1_400), (true, None));
    assert_eq!(scroll_toggle_press(&bindings, true, Some(1_000), &esc, 1_401), (false, Some(1_401)));
    assert_eq!(scroll_toggle_press(&bindings, false, Some(1_000), &esc, 1_100), (false, None));
    let other = press(KeyCode::Char('a'), KeyModifiers::none());
    assert_eq!(scroll_toggle_press(&bindings, true, Some(1_000), &other, 1_100), (false, None));
    let release = KeyEvent { kind: KeyEventKind::Release, ..esc };
    assert_eq!(scroll_toggle_press(&bindings, true, Some(1_000), &release, 1_100), (false, Some(1_000)));
    let ctrl_esc = press(KeyCode::Esc, KeyModifiers { control: true, ..KeyModifiers::none() });
    assert_eq!(scroll_toggle_press(&bindings, true, Some(5), &ctrl_esc, 9_000), (true, None));
}

#[test]
fn toggle_actions_and_view_modes() {
    assert_eq!(toggle_action(true, ViewMode::Tail, true), ToggleAction::ExitCopyMode);
    assert_eq!(toggle_action(false, ViewMode::Scrollback, true), ToggleAction::FollowTail);
    assert_eq!(toggle_action(false, ViewMode::Tail, false), ToggleAction::FollowTail);
    assert_eq!(toggle_action(false, ViewMode::Tail, true), ToggleAction::EnterCopyMode);
    assert_eq!(synced_view_mode(true, true), ViewMode::Scrollback);
    assert_eq!(synced_view_mode(false, false), ViewMode::Scrollback);
    assert_eq!(synced_view_mode(false, true), ViewMode::Tail);
}

#[test]
fn mouse_positions_map_to_the_grid() {
    let mut renderer = GridRenderer::new(0, 20);
    renderer.on_resize(20, 5);
    renderer.apply_row_from_text(0, 1, "hello");
    renderer.apply_row_from_text(1, 1, "hi");
    renderer.scroll_to_top();
    let at = |row: u16, column: u16| MouseEvent {
        kind: MouseEventKind::Moved,
        column,
        row,
        modifiers: KeyModifiers::none(),
    };
    assert_eq!(mouse_position_to_selection(&renderer, &at(0, 2)), Some(SelectionPosition { row: 0, col: 2 }));
    assert_eq!(mouse_position_to_selection(&renderer, &at(1, 9)), Some(SelectionPosition { row: 1, col: 1 }));
    assert_eq!(mouse_position_to_selection(&renderer, &at(2, 0)), Some(SelectionPosition { row: 1, col: 0 }));
    assert_eq!(mouse_position_to_selection(&renderer, &at(3, 0)), None);
    assert_eq!(drag_scroll(3, 0), -1);
    assert_eq!(drag_scroll(3, 1), 0);
    assert_eq!(drag_scroll(3, 2), 1);
}

#[test]
fn tail_status_texts() {
    let bindings = vec![KeyBinding::new(KeyCode::Esc, KeyModifiers { control: true, ..KeyModifiers::none() })];
    assert_eq!(
        tail_highlight_text(true, &bindings),
        "ESC ESC to scrollback • CTRL+ESC to scrollback • CTRL+Q quit"
    );
    assert_eq!(tail_highlight_text(false, &Vec::new()), "CTRL+Q quit");
    assert_eq!(
        tail_status_highlight(false, &Vec::new(), Some(3_000), 2_999),
        ("TAIL • CTRL+Q quit".to_string(), true)
    );
    assert_eq!(tail_status_highlight(false, &Vec::new(), Some(3_000), 3_000), ("CTRL+Q quit".to_string(), false));
}

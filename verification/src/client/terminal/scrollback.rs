//! The client's view of the session: following the tail or reading
//! scrollback, copy mode, and the status line each of them shows.
//!
//! Times are readings of a monotonic clock in milliseconds, supplied by the
//! caller. The mouse capture recorded here is the one the client wants; the
//! terminal is switched by the caller.

use vstd::prelude::*;
use vstd::string::StringExecFns;

use super::copy_mode::{
    apply_selection_command, copy_mode_highlight, copy_mode_start_position, find_word_backward, find_word_forward,
    jump_copy_cursor_to_bottom, jump_copy_cursor_to_top, move_copy_cursor, move_copy_cursor_line_end,
    move_copy_cursor_line_start, move_in_range, repeat_direction, search_prompt, start_search,
    update_copy_mode_selection, handle_pending_search_key, ForwardWordKind, PendingSearchOutcome,
    set_copy_cursor_position, spec_after_cursor_move, spec_apply_selection_command, spec_bottom, spec_copy_mode_highlight,
    spec_copy_mode_start, spec_line_end, spec_line_start, spec_move_target, spec_repeat_direction, spec_search_prompt,
    spec_show_copy_selection, spec_top, spec_with_cursor, spec_word_target,
};
use super::keys::{
    copy_mode_command_for_key, spec_copy_mode_command_for_key, CopyModeCommand, KeyBinding, KeyCode, KeyEvent,
    MouseButton, MouseEvent, MouseEventKind, WordMotion,
};
use super::view::{
    any_binding_matches, any_binding_matches_key, drag_scroll, mouse_position_to_selection, scroll_toggle_press,
    spec_drag_scroll, spec_mouse_position, spec_scroll_toggle_press, spec_toggle_action, toggle_action, ToggleAction, spec_synced_view_mode, spec_tail_status_highlight, synced_view_mode,
    tail_status_highlight, ViewMode,
};
use super::{CopyModeKeySet, CopyModePendingInput, CopyModeSearchDirection, CopyModeState};
use crate::client::grid_renderer::text::{spec_clamp_position, spec_clear_selection};
use crate::client::grid_renderer::viewport::{spec_ensure_row_visible, spec_scroll_lines};
use crate::client::grid_renderer::{
    renderer_wf, spec_scroll_to_tail, GridRenderer, RendererView, SelectionMode, SelectionPosition, SelectionRange,
};

verus! {

/// How long the status line flashes after returning to the tail.
pub const TAIL_FLASH_MS: u64 = 3000;

/// The client's view state.
#[derive(Debug)]
pub struct ClientView {
    pub view_mode: ViewMode,
    pub copy_mode: Option<CopyModeState>,
    /// Until when the status line flashes after returning to the tail.
    pub tail_flash_until: Option<u64>,
    /// Whether the client wants the terminal's mouse events.
    pub mouse_capture: bool,
    /// Whether the screen must be drawn again.
    pub force_render: bool,
    /// Whether a double Escape toggles scrollback.
    pub double_esc: bool,
    /// The keys that toggle scrollback.
    pub scroll_toggle: Vec<KeyBinding>,
    /// The key set copy mode starts with.
    pub copy_mode_keys: CopyModeKeySet,
    /// When the tmux-style prefix (Ctrl+B) was pressed, if it is pending.
    pub tmux_prefix_started_at: Option<u64>,
    /// When the last lone Escape was pressed, for the double-Escape toggle.
    pub last_plain_esc: Option<u64>,
}

/// The renderer with this status line.
pub open spec fn with_status(v: RendererView, message: Option<Seq<char>>, highlight: Option<Seq<char>>) -> RendererView {
    RendererView { status_message: message, status_highlight: highlight, status_is_error: false, needs_redraw: true, ..v }
}

/// The copy-mode status line: the search prompt while a pattern is typed,
/// else `scrollback` with the copy-mode keys; none outside copy mode.
pub open spec fn spec_update_copy_mode_status(c: ClientView, v: RendererView) -> (ClientView, RendererView) {
    match c.copy_mode {
        None => (c, with_status(v, None, None)),
        Some(st) => match st.pending_input {
            Some(CopyModePendingInput::Search { direction, buffer }) => (
                c,
                with_status(v, Some(spec_search_prompt(direction, buffer@)), None),
            ),
            None => (
                ClientView { force_render: true, ..c },
                with_status(v, Some("scrollback"@), Some(spec_copy_mode_highlight(st.selection_active))),
            ),
        },
    }
}

/// Whether the flash after returning to the tail still lasts at `now`.
pub open spec fn flash_lasts(c: ClientView, now: u64) -> bool {
    c.tail_flash_until matches Some(u) && now < u
}

/// The tail status line at `now`; a flash that has ended is forgotten.
pub open spec fn spec_apply_tail_status(c: ClientView, v: RendererView, now: u64) -> (ClientView, RendererView) {
    (
        ClientView {
            tail_flash_until: if flash_lasts(c, now) {
                c.tail_flash_until
            } else {
                None
            },
            force_render: true,
            ..c
        },
        with_status(
            v,
            Some("tail"@),
            Some(spec_tail_status_highlight(c.double_esc, c.scroll_toggle@, c.tail_flash_until, now)),
        ),
    )
}

/// The scrollback status line: copy mode's in copy mode, else
/// `scrollback` with how to leave.
pub open spec fn spec_apply_scrollback_status(c: ClientView, v: RendererView) -> (ClientView, RendererView) {
    if c.copy_mode is Some {
        spec_update_copy_mode_status(c, v)
    } else {
        (ClientView { force_render: true, ..c }, with_status(v, Some("scrollback"@), Some("ESC exit • CTRL+Q quit"@)))
    }
}

/// The status line of the mode shown.
pub open spec fn spec_refresh_view_mode_status(c: ClientView, v: RendererView, now: u64) -> (ClientView, RendererView) {
    match c.view_mode {
        ViewMode::Tail => spec_apply_tail_status(c, v, now),
        ViewMode::Scrollback => spec_apply_scrollback_status(c, v),
    }
}

/// When the flash after returning to the tail has ended, the tail status
/// line without it.
pub open spec fn spec_maybe_update_tail_flash(c: ClientView, v: RendererView, now: u64) -> (ClientView, RendererView) {
    if c.view_mode == ViewMode::Tail && (c.tail_flash_until matches Some(u) && now >= u) {
        spec_apply_tail_status(ClientView { tail_flash_until: None, ..c }, v, now)
    } else {
        (c, v)
    }
}

/// `a + b`, at most the largest `u64`.
pub open spec fn add_sat(a: u64, b: u64) -> u64 {
    if a + b <= u64::MAX {
        (a + b) as u64
    } else {
        u64::MAX
    }
}

/// Showing `mode`: a change of mode shows its status line, and returning
/// to the tail starts the flash; showing scrollback again in copy mode
/// refreshes the copy-mode status line.
pub open spec fn spec_set_view_mode(c: ClientView, v: RendererView, mode: ViewMode, now: u64) -> (ClientView, RendererView) {
    if c.view_mode == mode {
        if mode == ViewMode::Scrollback && c.copy_mode is Some {
            spec_update_copy_mode_status(c, v)
        } else {
            (c, v)
        }
    } else {
        let c1 = ClientView {
            view_mode: mode,
            tail_flash_until: if mode == ViewMode::Tail {
                Some(add_sat(now, TAIL_FLASH_MS))
            } else {
                None
            },
            ..c
        };
        spec_refresh_view_mode_status(c1, v, now)
    }
}

/// Showing the mode that copy mode and following the tail call for.
pub open spec fn spec_sync_view_mode(c: ClientView, v: RendererView, now: u64) -> (ClientView, RendererView) {
    let target = spec_synced_view_mode(c.copy_mode is Some, v.follow_tail);
    if c.view_mode != target {
        spec_set_view_mode(c, v, target, now)
    } else {
        (c, v)
    }
}

/// Copy mode as it starts at `position` with the key set `mode`.
pub open spec fn fresh_copy_mode(position: SelectionPosition, mode: CopyModeKeySet) -> CopyModeState {
    CopyModeState {
        anchor: position,
        cursor: position,
        selection_active: false,
        selection_mode: SelectionMode::Character,
        mode,
        pending_input: None,
        last_search: None,
    }
}

/// Entering copy mode: at the bottom row of the viewport (see
/// `spec_copy_mode_start`), with the mouse captured, the tail no longer
/// followed, no selection shown, and scrollback shown. Nothing happens in
/// copy mode or without rows.
pub open spec fn spec_enter_copy_mode(c: ClientView, v: RendererView, now: u64) -> (ClientView, RendererView) {
    if c.copy_mode is Some {
        (c, v)
    } else {
        match spec_copy_mode_start(v) {
            None => (c, v),
            Some(position) => {
                let c1 = ClientView {
                    copy_mode: Some(fresh_copy_mode(position, c.copy_mode_keys)),
                    mouse_capture: true,
                    ..c
                };
                let v1 = spec_clear_selection(RendererView { follow_tail: false, ..v });
                let (c2, v2) = spec_set_view_mode(c1, v1, ViewMode::Scrollback, now);
                (ClientView { force_render: true, ..c2 }, v2)
            },
        }
    }
}

/// Leaving copy mode: the mouse released, no selection shown, the tail
/// followed again, and the tail shown. Nothing happens outside copy mode.
pub open spec fn spec_exit_copy_mode(c: ClientView, v: RendererView, now: u64) -> (ClientView, RendererView) {
    if c.copy_mode is None {
        (c, v)
    } else {
        let c1 = ClientView { copy_mode: None, mouse_capture: false, force_render: true, ..c };
        let v1 = RendererView {
            needs_redraw: true,
            ..spec_scroll_to_tail(RendererView { follow_tail: true, ..spec_clear_selection(v) })
        };
        spec_set_view_mode(c1, v1, ViewMode::Tail, now)
    }
}

/// The renderer's rows, viewport and columns, which status lines, copy
/// mode and following the tail leave as they are.
pub open spec fn same_grid(a: RendererView, b: RendererView) -> bool {
    &&& a.base_row == b.base_row
    &&& a.rows == b.rows
    &&& a.scroll_top == b.scroll_top
    &&& a.viewport_height == b.viewport_height
    &&& a.cols == b.cols
}

proof fn lemma_view_mode_keeps_grid(c: ClientView, v: RendererView, mode: ViewMode, now: u64)
    ensures
        same_grid(spec_set_view_mode(c, v, mode, now).1, v),
        same_grid(spec_enter_copy_mode(c, v, now).1, v),
        spec_enter_copy_mode(c, v, now).0.copy_mode is Some ==> c.copy_mode is Some || spec_copy_mode_start(v)
            == Some(spec_enter_copy_mode(c, v, now).0.copy_mode->0.cursor),
        spec_enter_copy_mode(c, v, now).0.copy_mode is None ==> c.copy_mode is None,
{
}

proof fn lemma_start_row_bounded(v: RendererView)
    requires
        v.base_row + v.rows.len() <= i64::MAX,
    ensures
        spec_copy_mode_start(v) matches Some(p) ==> p.row <= v.base_row + v.rows.len(),
{
}

/// What a scroll of the viewport by `delta` rows needs to stay within the
/// integer types it is computed in: a forward scroll fits in a `usize`,
/// row numbers with room for a scroll fit in an `i64`, and so does the copy
/// cursor moved along.
pub open spec fn scroll_fits(c: ClientView, v: RendererView, delta: isize) -> bool {
    &&& delta > 0 ==> v.scroll_top + delta <= usize::MAX
    &&& v.base_row + 2 * v.rows.len() <= i64::MAX
    &&& v.cols <= isize::MAX
    &&& (c.copy_mode matches Some(st) ==> st.cursor.row + v.rows.len() <= i64::MAX)
}

/// The first part of a scroll: copy mode entered when asked and scrolling
/// up, the viewport scrolled, the rows it moved, and whether it reached the
/// bottom.
pub open spec fn spec_scroll_measure(c: ClientView, v: RendererView, delta: isize, auto_enter_copy: bool, now: u64) -> (
    ClientView,
    RendererView,
    i64,
    bool,
) {
    let (c1, v1) = if auto_enter_copy && delta < 0 && c.copy_mode is None {
        spec_enter_copy_mode(c, v, now)
    } else {
        (c, v)
    };
    let v2 = spec_scroll_lines(v1, delta as int);
    let actual = ((v2.base_row + v2.scroll_top) - (v1.base_row + v1.scroll_top)) as i64;
    (c1, v2, actual, v2.follow_tail)
}

/// The rest of a scroll that moved `actual` rows: the copy cursor moves
/// along unless a selection is being made; reaching the bottom scrolls to
/// the tail and, without a selection, leaves copy mode; the mode shown
/// follows.
pub open spec fn spec_follow_scroll(c1: ClientView, v2: RendererView, actual: i64, reached_tail: bool, now: u64) -> (
    ClientView,
    RendererView,
) {
    let (c3, v3) = match c1.copy_mode {
        Some(st) => {
            let (c2, w2) = if actual != 0 && !st.selection_active {
                let target = spec_clamp_position(v2, (st.cursor.row as i64) + actual, (st.cursor.col as isize) as int);
                (ClientView { copy_mode: Some(spec_with_cursor(st, target)), ..c1 }, spec_after_cursor_move(v2, st, target, false))
            } else {
                (c1, v2)
            };
            if actual > 0 && reached_tail {
                let w3 = spec_scroll_to_tail(w2);
                if !st.selection_active {
                    spec_exit_copy_mode(c2, w3, now)
                } else {
                    (c2, w3)
                }
            } else {
                (c2, w2)
            }
        },
        None => if actual > 0 && reached_tail {
            (c1, spec_scroll_to_tail(v2))
        } else {
            (c1, v2)
        },
    };
    let c4 = if actual != 0 {
        ClientView { force_render: true, ..c3 }
    } else {
        c3
    };
    spec_sync_view_mode(c4, v3, now)
}

/// Scrolling the viewport by `delta` rows (up when negative), entering copy
/// mode first when asked and scrolling up (see `spec_scroll_measure` and
/// `spec_follow_scroll`). The number of rows actually scrolled is returned.
pub open spec fn spec_apply_scroll_delta(c: ClientView, v: RendererView, delta: isize, auto_enter_copy: bool, now: u64) -> (
    ClientView,
    RendererView,
    i64,
) {
    if delta == 0 {
        (c, v, 0)
    } else {
        let (c1, v2, actual, reached_tail) = spec_scroll_measure(c, v, delta, auto_enter_copy, now);
        let (c5, v5) = spec_follow_scroll(c1, v2, actual, reached_tail, now);
        (c5, v5, actual)
    }
}

/// `a * b`, within the range of `isize`.
pub open spec fn sat_mul(a: isize, b: isize) -> isize {
    if a * b > isize::MAX {
        isize::MAX
    } else if a * b < isize::MIN {
        isize::MIN
    } else {
        (a * b) as isize
    }
}

/// The rows of a page: the viewport's height (at least one).
pub open spec fn page_step(v: RendererView) -> isize {
    (if v.viewport_height >= 1 {
        v.viewport_height
    } else {
        1
    }) as isize
}

/// The rows of half a page (at least one).
pub open spec fn half_page_step(v: RendererView) -> isize {
    let half = (page_step(v) / 2) as isize;
    if half >= 1 {
        half
    } else {
        1
    }
}

/// What moving the copy cursor by `delta` rows needs to stay within the
/// integer types it is computed in.
pub open spec fn cursor_move_fits(c: ClientView, v: RendererView, delta: isize) -> bool {
    &&& scroll_fits(c, v, delta)
    &&& (c.copy_mode matches Some(st) ==> move_in_range(st.cursor, delta, 0))
}

/// Moving the copy cursor by `delta` rows: the viewport scrolls by as much,
/// and the cursor moves itself (scrolled into view) when the viewport could
/// not move.
pub open spec fn spec_move_copy_cursor_by(c: ClientView, v: RendererView, delta: isize, now: u64) -> (ClientView, RendererView) {
    let (c1, v1, moved) = spec_apply_scroll_delta(c, v, delta, false, now);
    if moved == 0 {
        match c1.copy_mode {
            Some(st) => {
                let target = spec_move_target(v1, st.cursor, delta, 0);
                (
                    ClientView { copy_mode: Some(spec_with_cursor(st, target)), force_render: true, ..c1 },
                    spec_after_cursor_move(v1, st, target, true),
                )
            },
            None => (c1, v1),
        }
    } else {
        (c1, v1)
    }
}

/// Moving the copy cursor by `pages` pages; nothing outside copy mode.
pub open spec fn spec_move_copy_cursor_page(c: ClientView, v: RendererView, pages: isize, now: u64) -> (ClientView, RendererView) {
    if pages == 0 || c.copy_mode is None {
        (c, v)
    } else {
        spec_move_copy_cursor_by(c, v, sat_mul(pages, page_step(v)), now)
    }
}

/// Moving the copy cursor by `delta` half pages; nothing outside copy mode.
pub open spec fn spec_move_copy_cursor_half_page(c: ClientView, v: RendererView, delta: isize, now: u64) -> (
    ClientView,
    RendererView,
) {
    if delta == 0 || c.copy_mode is None {
        (c, v)
    } else {
        spec_move_copy_cursor_by(c, v, sat_mul(delta, half_page_step(v)), now)
    }
}

/// A drag in copy mode at viewport row `mouse_row` scrolls a line up at the
/// top row and a line down at the bottom row.
pub open spec fn spec_maybe_auto_scroll_drag(c: ClientView, v: RendererView, mouse_row: u16, now: u64) -> (
    ClientView,
    RendererView,
) {
    let d = spec_drag_scroll(page_step(v) as usize, mouse_row);
    if c.copy_mode is None || d == 0 {
        (c, v)
    } else {
        let (c1, v1, _) = spec_apply_scroll_delta(c, v, d, false, now);
        (c1, v1)
    }
}

proof fn lemma_still_scroll_keeps_copy_mode(c: ClientView, v: RendererView, delta: isize, now: u64)
    requires
        delta != 0,
        spec_apply_scroll_delta(c, v, delta, false, now).2 == 0,
    ensures
        spec_apply_scroll_delta(c, v, delta, false, now).0.copy_mode == c.copy_mode,
        same_grid(spec_apply_scroll_delta(c, v, delta, false, now).1, spec_scroll_lines(v, delta as int)),
{
    let (c1, v2, actual, reached) = spec_scroll_measure(c, v, delta, false, now);
    let (c3, v3) = match c1.copy_mode {
        Some(st) => (c1, v2),
        None => (c1, v2),
    };
    lemma_view_mode_keeps_grid(c3, v3, spec_synced_view_mode(c3.copy_mode is Some, v3.follow_tail), now);
}

/// How long the tmux-style prefix (Ctrl+B) waits for its key.
pub const TMUX_PREFIX_TIMEOUT_MS: u64 = 500;

/// What the tmux-style prefix did with a key.
#[derive(Clone, Copy, Debug, PartialEq, Eq, Structural)]
pub enum PrefixOutcome {
    /// The key is not part of a prefix command.
    NotHandled,
    /// The key was used.
    Handled,
    /// The key was used: paste from the clipboard.
    Paste,
}

/// What is left for the caller after a copy-mode command.
#[derive(Clone, Copy, Debug, PartialEq, Eq, Structural)]
pub enum CommandEffect {
    Nothing,
    /// Copy the selection to the clipboard, leaving copy mode afterwards
    /// when asked.
    Copy { exit_after: bool },
    /// Search again for the last pattern, in this direction.
    RepeatSearch(CopyModeSearchDirection),
}

/// Whether the room the viewport and copy cursor have is enough for a page
/// move either way, whatever copy mode starts from.
pub open spec fn view_fits(c: ClientView, v: RendererView) -> bool {
    &&& renderer_wf(v)
    &&& v.base_row + 2 * v.rows.len() + 2 * u16::MAX <= i64::MAX
    &&& v.rows.len() + u16::MAX <= usize::MAX
    &&& v.cols <= isize::MAX
    &&& (c.copy_mode matches Some(st) ==> st.cursor.row + v.rows.len() + u16::MAX <= i64::MAX)
}

/// Whether `key` is Ctrl+B (either case) without Alt or Super.
pub open spec fn is_prefix_key(key: KeyEvent) -> bool {
    &&& key.code matches KeyCode::Char(ch) && (ch == 'b' || ch == 'B')
    &&& key.modifiers.control
    &&& !key.modifiers.alt
    &&& !key.modifiers.super_key
}

/// The prefix forgotten once its time is up.
pub open spec fn spec_expire_tmux_prefix(c: ClientView, now: u64) -> ClientView {
    match c.tmux_prefix_started_at {
        Some(started) => if now >= started && now - started >= TMUX_PREFIX_TIMEOUT_MS {
            ClientView { tmux_prefix_started_at: None, ..c }
        } else {
            c
        },
        None => c,
    }
}

/// Entering copy mode and moving a page by `pages`, once in it.
pub open spec fn spec_enter_and_page(c: ClientView, v: RendererView, pages: isize, now: u64) -> (ClientView, RendererView) {
    let (c1, v1) = spec_enter_copy_mode(c, v, now);
    if c1.copy_mode is Some {
        spec_move_copy_cursor_page(c1, v1, pages, now)
    } else {
        (c1, v1)
    }
}

/// The tmux-style prefix: Ctrl+B starts it; the key after it (within the
/// timeout) enters copy mode (`[`), enters it and moves a page (PageUp,
/// PageDown), or pastes (`]`); any other key after it is not used.
#[verifier::opaque]
pub open spec fn spec_handle_tmux_prefix(c: ClientView, v: RendererView, key: KeyEvent, now: u64) -> (
    ClientView,
    RendererView,
    PrefixOutcome,
) {
    let c0 = spec_expire_tmux_prefix(c, now);
    if is_prefix_key(key) {
        (ClientView { tmux_prefix_started_at: Some(now), ..c0 }, v, PrefixOutcome::Handled)
    } else if c0.tmux_prefix_started_at is Some {
        let c1 = ClientView { tmux_prefix_started_at: None, ..c0 };
        match key.code {
            KeyCode::Char('[') => {
                let (c2, v2) = spec_enter_copy_mode(c1, v, now);
                (c2, v2, PrefixOutcome::Handled)
            },
            KeyCode::PageUp => {
                let (c2, v2) = spec_enter_and_page(c1, v, -1isize, now);
                (c2, v2, PrefixOutcome::Handled)
            },
            KeyCode::PageDown => {
                let (c2, v2) = spec_enter_and_page(c1, v, 1isize, now);
                (c2, v2, PrefixOutcome::Handled)
            },
            KeyCode::Char(']') => (c1, v, PrefixOutcome::Paste),
            _ => (c1, v, PrefixOutcome::NotHandled),
        }
    } else {
        (c0, v, PrefixOutcome::NotHandled)
    }
}

proof fn lemma_page_fits_after_enter(c: ClientView, v: RendererView, pages: isize, now: u64)
    requires
        view_fits(c, v),
        pages == 1 || pages == -1,
    ensures
        ({
            let (c1, v1) = spec_enter_copy_mode(c, v, now);
            cursor_move_fits(c1, v1, sat_mul(pages, page_step(v1)))
        }),
{
    lemma_view_mode_keeps_grid(c, v, ViewMode::Scrollback, now);
    lemma_start_row_bounded(v);
    let (c1, v1) = spec_enter_copy_mode(c, v, now);
    let step = page_step(v1);
    assert(1 <= step <= u16::MAX);
    let d = sat_mul(pages, step);
    if pages == 1 {
        assert(pages * step == step);
        assert(d == step);
    } else {
        assert(pages * step == -step) by (nonlinear_arith)
            requires
                pages == -1,
        ;
        assert(d == -step);
    }
    assert(scroll_fits(c1, v1, d));
}

/// The copy cursor moved to `target` and scrolled into view.
pub open spec fn spec_cursor_to(c: ClientView, v: RendererView, target: SelectionPosition) -> (ClientView, RendererView) {
    match c.copy_mode {
        Some(st) => (
            ClientView { copy_mode: Some(spec_with_cursor(st, target)), force_render: true, ..c },
            spec_after_cursor_move(v, st, target, true),
        ),
        None => (c, v),
    }
}

/// The selection of copy mode shown on the renderer.
pub open spec fn spec_show_selection(c: ClientView, v: RendererView) -> (ClientView, RendererView) {
    match c.copy_mode {
        Some(st) => (ClientView { force_render: true, ..c }, spec_show_copy_selection(v, st)),
        None => (c, v),
    }
}

/// Copy mode after a selection command, when in it.
pub open spec fn with_selection_command(c: ClientView, command: CopyModeCommand) -> ClientView {
    ClientView {
        copy_mode: match c.copy_mode {
            Some(st) => Some(spec_apply_selection_command(st, command)),
            None => None,
        },
        ..c
    }
}

/// The search prompt shown while a pattern is typed in copy mode.
pub open spec fn spec_update_copy_mode_prompt(c: ClientView, v: RendererView) -> RendererView {
    match c.copy_mode {
        Some(st) => match st.pending_input {
            Some(CopyModePendingInput::Search { direction, buffer }) => with_status(
                v,
                Some(spec_search_prompt(direction, buffer@)),
                None,
            ),
            None => v,
        },
        None => v,
    }
}

/// What each copy-mode command does: cursor motions move the copy cursor
/// (pages and half pages scroll first); selection commands change the
/// selection, show it and the status line (the tail stops being followed
/// when a selection starts); copying is left to the caller; Cancel leaves
/// copy mode; a key-set change shows the status line; a search starts
/// typing a pattern; repeating the last search is left to the caller, in
/// the direction it goes. Outside copy mode, motions do nothing. The
/// pattern a search starts with is `fresh_buffer` (empty).
#[verifier::opaque]
pub open spec fn spec_execute_copy_mode_command(
    c: ClientView,
    v: RendererView,
    command: CopyModeCommand,
    fresh_buffer: String,
    now: u64,
) -> (
    ClientView,
    RendererView,
    CommandEffect,
) {
    let cursor = c.copy_mode->0.cursor;
    match command {
        CopyModeCommand::Move { rows, cols } => {
            let (c1, v1) = spec_cursor_to(c, v, spec_move_target(v, cursor, rows, cols));
            (c1, v1, CommandEffect::Nothing)
        },
        CopyModeCommand::MoveToLineStart => {
            let (c1, v1) = spec_cursor_to(c, v, spec_line_start(v, cursor.row));
            (c1, v1, CommandEffect::Nothing)
        },
        CopyModeCommand::MoveToLineEnd => {
            let (c1, v1) = spec_cursor_to(c, v, spec_line_end(v, cursor.row));
            (c1, v1, CommandEffect::Nothing)
        },
        CopyModeCommand::Page { delta } => {
            let (c1, v1) = spec_move_copy_cursor_page(c, v, delta, now);
            (c1, v1, CommandEffect::Nothing)
        },
        CopyModeCommand::HalfPage { delta } => {
            let (c1, v1) = spec_move_copy_cursor_half_page(c, v, delta, now);
            (c1, v1, CommandEffect::Nothing)
        },
        CopyModeCommand::JumpTop => {
            let (c1, v1) = spec_cursor_to(c, v, spec_top(v));
            (c1, v1, CommandEffect::Nothing)
        },
        CopyModeCommand::JumpBottom => {
            let (c1, v1) = spec_cursor_to(c, v, spec_bottom(v));
            (c1, v1, CommandEffect::Nothing)
        },
        CopyModeCommand::MoveWord(motion) => match spec_word_target(v, cursor, motion) {
            Some(target) if c.copy_mode is Some => {
                let (c1, v1) = spec_cursor_to(c, v, target);
                (c1, v1, CommandEffect::Nothing)
            },
            _ => (c, v, CommandEffect::Nothing),
        },
        CopyModeCommand::BeginSelection => {
            let (c1, v1) = spec_show_selection(
                with_selection_command(c, command),
                RendererView { follow_tail: false, ..v },
            );
            let (c2, v2) = spec_update_copy_mode_status(c1, v1);
            (c2, v2, CommandEffect::Nothing)
        },
        CopyModeCommand::ClearSelection => {
            let (c1, v1) = spec_show_selection(with_selection_command(c, command), v);
            let (c2, v2) = spec_update_copy_mode_status(c1, v1);
            (c2, v2, CommandEffect::Nothing)
        },
        CopyModeCommand::ToggleSelection => {
            let c0 = with_selection_command(c, command);
            let v0 = if c0.copy_mode matches Some(st) && st.selection_active {
                RendererView { follow_tail: false, ..v }
            } else {
                v
            };
            let (c1, v1) = spec_show_selection(c0, v0);
            let (c2, v2) = spec_update_copy_mode_status(c1, v1);
            (c2, v2, CommandEffect::Nothing)
        },
        CopyModeCommand::SetSelectionMode(_) => {
            let (c1, v1) = spec_show_selection(with_selection_command(c, command), v);
            let (c2, v2) = spec_update_copy_mode_status(c1, RendererView { follow_tail: false, ..v1 });
            (c2, v2, CommandEffect::Nothing)
        },
        CopyModeCommand::CopySelection => (c, v, CommandEffect::Copy { exit_after: false }),
        CopyModeCommand::CopySelectionAndExit => (c, v, CommandEffect::Copy { exit_after: true }),
        CopyModeCommand::Cancel => {
            let (c1, v1) = spec_exit_copy_mode(c, v, now);
            (c1, v1, CommandEffect::Nothing)
        },
        CopyModeCommand::SetMode(_) => {
            let (c1, v1) = spec_update_copy_mode_status(with_selection_command(c, command), v);
            (c1, v1, CommandEffect::Nothing)
        },
        CopyModeCommand::Search(direction) => {
            let c1 = match c.copy_mode {
                Some(st) => ClientView {
                    copy_mode: Some(
                        CopyModeState {
                            pending_input: Some(CopyModePendingInput::Search { direction, buffer: fresh_buffer }),
                            ..st
                        },
                    ),
                    ..c
                },
                None => c,
            };
            (ClientView { force_render: true, ..c1 }, spec_update_copy_mode_prompt(c1, v), CommandEffect::Nothing)
        },
        CopyModeCommand::RepeatLastSearch(hint) => match c.copy_mode {
            Some(st) => match st.last_search {
                Some(search) => (c, v, CommandEffect::RepeatSearch(spec_repeat_direction(search.direction, hint))),
                None => (c, v, CommandEffect::Nothing),
            },
            None => (c, v, CommandEffect::Nothing),
        },
    }
}

/// The pattern being typed in copy mode, if any.
pub open spec fn typed_pattern(c: ClientView) -> String {
    c.copy_mode->0.pending_input->0->buffer
}

/// What a copy-mode command needs to stay within the integer types it is
/// computed in.
pub open spec fn command_fits(c: ClientView, v: RendererView, command: CopyModeCommand) -> bool {
    &&& v.cols <= isize::MAX
    &&& match command {
        CopyModeCommand::Move { rows, cols } => c.copy_mode matches Some(st) ==> move_in_range(st.cursor, rows, cols),
        CopyModeCommand::Page { delta } => cursor_move_fits(c, v, sat_mul(delta, page_step(v))),
        CopyModeCommand::HalfPage { delta } => cursor_move_fits(c, v, sat_mul(delta, half_page_step(v))),
        _ => true,
    }
}

/// What a key did to a search pattern being typed in copy mode.
#[derive(Clone, Copy, Debug, PartialEq, Eq, Structural)]
pub enum PendingStep {
    /// No pattern is typed, or the key means nothing to it.
    NotConsumed,
    /// The key was used.
    Consumed,
    /// Enter ended the pattern: the caller searches for it in this
    /// direction, then shows the copy-mode status line.
    Submitted(CopyModeSearchDirection),
}

/// A key while a search pattern is typed: Escape drops it (and shows the
/// copy-mode status line), Enter ends it, Backspace and characters typed
/// without Control or Alt edit it (the pattern becoming `typed`) and show
/// the prompt; other keys are not used.
#[verifier::opaque]
pub open spec fn spec_consume_pending_input(c: ClientView, v: RendererView, key: KeyEvent, typed: String) -> (
    ClientView,
    RendererView,
    PendingStep,
) {
    match c.copy_mode {
        Some(st) => match st.pending_input {
            Some(CopyModePendingInput::Search { direction, buffer }) => {
                let cleared = ClientView { copy_mode: Some(CopyModeState { pending_input: None, ..st }), ..c };
                let edited = ClientView {
                    copy_mode: Some(
                        CopyModeState {
                            pending_input: Some(CopyModePendingInput::Search { direction, buffer: typed }),
                            ..st
                        },
                    ),
                    force_render: true,
                    ..c
                };
                match key.code {
                    KeyCode::Esc => {
                        let (c1, v1) = spec_update_copy_mode_status(cleared, v);
                        (ClientView { force_render: true, ..c1 }, v1, PendingStep::Consumed)
                    },
                    KeyCode::Enter => (cleared, v, PendingStep::Submitted(direction)),
                    KeyCode::Backspace => (edited, spec_update_copy_mode_prompt(edited, v), PendingStep::Consumed),
                    KeyCode::Char(_) => if !key.modifiers.control && !key.modifiers.alt {
                        (edited, spec_update_copy_mode_prompt(edited, v), PendingStep::Consumed)
                    } else {
                        (c, v, PendingStep::NotConsumed)
                    },
                    _ => (c, v, PendingStep::NotConsumed),
                }
            },
            None => (c, v, PendingStep::NotConsumed),
        },
        None => (c, v, PendingStep::NotConsumed),
    }
}

/// What a key does in copy mode, or toward it.
#[derive(Clone, Copy, Debug, PartialEq, Eq, Structural)]
pub enum CopyKeyStep {
    /// The key is not a copy-mode key.
    NotHandled,
    /// The key was used.
    Handled,
    /// Paste from the clipboard.
    Paste,
    /// Copy the selection to the clipboard, leaving copy mode afterwards
    /// when asked.
    Copy { exit_after: bool },
    /// Search for the pattern just typed, in this direction.
    Search(CopyModeSearchDirection),
    /// Search again for the last pattern, in this direction.
    RepeatSearch(CopyModeSearchDirection),
}

/// What is left after a command, as a key step.
pub open spec fn effect_step(effect: CommandEffect) -> CopyKeyStep {
    match effect {
        CommandEffect::Nothing => CopyKeyStep::Handled,
        CommandEffect::Copy { exit_after } => CopyKeyStep::Copy { exit_after },
        CommandEffect::RepeatSearch(d) => CopyKeyStep::RepeatSearch(d),
    }
}

/// A key in copy mode (after the prefix): a copy shortcut copies and
/// leaves, a pattern being typed takes the key, else the key's command runs.
pub open spec fn spec_key_in_copy_mode(
    c: ClientView,
    v: RendererView,
    key: KeyEvent,
    shortcuts: Seq<KeyBinding>,
    typed: String,
    now: u64,
) -> (ClientView, RendererView, CopyKeyStep) {
    let st = c.copy_mode->0;
    if any_binding_matches(shortcuts, key) {
        (c, v, CopyKeyStep::Copy { exit_after: true })
    } else {
        let (c2, v2, step) = spec_consume_pending_input(c, v, key, typed);
        match step {
            PendingStep::Consumed => (c2, v2, CopyKeyStep::Handled),
            PendingStep::Submitted(d) => (c2, v2, CopyKeyStep::Search(d)),
            PendingStep::NotConsumed => match spec_copy_mode_command_for_key(st.mode, st.selection_active, key) {
                Some(command) => {
                    let (c3, v3, effect) = spec_execute_copy_mode_command(c, v, command, typed, now);
                    (c3, v3, effect_step(effect))
                },
                None => (c, v, CopyKeyStep::NotHandled),
            },
        }
    }
}

/// A key outside copy mode (after the prefix): PageUp enters copy mode a
/// page up and Alt+`[` enters it.
pub open spec fn spec_key_outside_copy_mode(c: ClientView, v: RendererView, key: KeyEvent, now: u64) -> (
    ClientView,
    RendererView,
    CopyKeyStep,
) {
    if key.code is PageUp {
        let (c2, v2) = spec_enter_and_page(c, v, -1isize, now);
        (c2, v2, CopyKeyStep::Handled)
    } else if key.modifiers.alt && key.code == KeyCode::Char('[') {
        let (c2, v2) = spec_enter_copy_mode(c, v, now);
        (c2, v2, CopyKeyStep::Handled)
    } else {
        (c, v, CopyKeyStep::NotHandled)
    }
}

/// A key in copy mode, or toward it: the tmux-style prefix first, then
/// `spec_key_in_copy_mode` or `spec_key_outside_copy_mode`. `typed` is the
/// pattern a key edits or a search starts with.
pub open spec fn spec_process_copy_mode_key(
    c: ClientView,
    v: RendererView,
    key: KeyEvent,
    shortcuts: Seq<KeyBinding>,
    typed: String,
    now: u64,
) -> (ClientView, RendererView, CopyKeyStep) {
    let (c1, v1, prefix) = spec_handle_tmux_prefix(c, v, key, now);
    if prefix == PrefixOutcome::Handled {
        (c1, v1, CopyKeyStep::Handled)
    } else if prefix == PrefixOutcome::Paste {
        (c1, v1, CopyKeyStep::Paste)
    } else if c1.copy_mode is Some {
        spec_key_in_copy_mode(c1, v1, key, shortcuts, typed, now)
    } else {
        spec_key_outside_copy_mode(c1, v1, key, now)
    }
}

proof fn lemma_unused_key_ignores_pattern(c: ClientView, v: RendererView, key: KeyEvent, t1: String, t2: String)
    requires
        spec_consume_pending_input(c, v, key, t1).2 is NotConsumed,
    ensures
        spec_consume_pending_input(c, v, key, t2) == (c, v, PendingStep::NotConsumed),
{
    reveal(spec_consume_pending_input);
}

proof fn lemma_key_commands_are_small(mode: CopyModeKeySet, selection_active: bool, key: KeyEvent)
    ensures
        spec_copy_mode_command_for_key(mode, selection_active, key) matches Some(command) ==> match command {
            CopyModeCommand::Move { rows, cols } => -1 <= rows <= 1 && -1 <= cols <= 1,
            CopyModeCommand::Page { delta } => delta == 1 || delta == -1,
            CopyModeCommand::HalfPage { delta } => delta == 1 || delta == -1,
            _ => true,
        },
{
}

proof fn lemma_small_commands_fit(c: ClientView, v: RendererView, command: CopyModeCommand)
    requires
        view_fits(c, v),
        c.copy_mode matches Some(st) ==> st.cursor.col < isize::MAX,
        match command {
            CopyModeCommand::Move { rows, cols } => -1 <= rows <= 1 && -1 <= cols <= 1,
            CopyModeCommand::Page { delta } => delta == 1 || delta == -1,
            CopyModeCommand::HalfPage { delta } => delta == 1 || delta == -1,
            _ => true,
        },
    ensures
        command_fits(c, v, command),
{
    let step = page_step(v);
    let half = half_page_step(v);
    assert(1 <= step <= u16::MAX);
    assert(1 <= half <= u16::MAX);
    match command {
        CopyModeCommand::Page { delta } => {
            if delta == 1 {
                assert(delta * step == step);
            } else {
                assert(delta * step == -step) by (nonlinear_arith)
                    requires
                        delta == -1,
                ;
            }
        },
        CopyModeCommand::HalfPage { delta } => {
            if delta == 1 {
                assert(delta * half == half);
            } else {
                assert(delta * half == -half) by (nonlinear_arith)
                    requires
                        delta == -1,
                ;
            }
        },
        _ => {},
    }
}

/// Showing a mode changes only the mode, the flash, the redraw flag and
/// the status line.
proof fn lemma_set_view_mode_facts(c: ClientView, v: RendererView, mode: ViewMode, now: u64)
    ensures
        ({
            let (c1, v1) = spec_set_view_mode(c, v, mode, now);
            &&& c1.view_mode == mode
            &&& c1.copy_mode == c.copy_mode
            &&& c1.mouse_capture == c.mouse_capture
            &&& v1.follow_tail == v.follow_tail
            &&& v1.selection == v.selection
            &&& same_grid(v1, v)
        }),
{
}

/// After any scroll of the viewport, the mode shown is the one copy mode
/// and following the tail call for: scrollback in copy mode or away from
/// the tail, the tail otherwise.
pub proof fn law_scroll_shows_synced_mode(c: ClientView, v: RendererView, delta: isize, auto_enter_copy: bool, now: u64)
    requires
        delta != 0,
    ensures
        ({
            let (c1, v1, _) = spec_apply_scroll_delta(c, v, delta, auto_enter_copy, now);
            c1.view_mode == spec_synced_view_mode(c1.copy_mode is Some, v1.follow_tail)
        }),
{
    let (c1, v2, actual, reached) = spec_scroll_measure(c, v, delta, auto_enter_copy, now);
    let (c3, v3) = match c1.copy_mode {
        Some(st) => {
            let (c2, w2) = if actual != 0 && !st.selection_active {
                let target = spec_clamp_position(v2, (st.cursor.row as i64) + actual, (st.cursor.col as isize) as int);
                (ClientView { copy_mode: Some(spec_with_cursor(st, target)), ..c1 }, spec_after_cursor_move(v2, st, target, false))
            } else {
                (c1, v2)
            };
            if actual > 0 && reached {
                let w3 = spec_scroll_to_tail(w2);
                if !st.selection_active {
                    spec_exit_copy_mode(c2, w3, now)
                } else {
                    (c2, w3)
                }
            } else {
                (c2, w2)
            }
        },
        None => if actual > 0 && reached {
            (c1, spec_scroll_to_tail(v2))
        } else {
            (c1, v2)
        },
    };
    let c4 = if actual != 0 {
        ClientView { force_render: true, ..c3 }
    } else {
        c3
    };
    lemma_set_view_mode_facts(c4, v3, spec_synced_view_mode(c4.copy_mode is Some, v3.follow_tail), now);
}

/// Leaving copy mode returns to the tail: no copy mode, the tail shown
/// and followed, no selection, and the mouse released.
pub proof fn law_exit_returns_to_tail(c: ClientView, v: RendererView, now: u64)
    requires
        c.copy_mode is Some,
    ensures
        ({
            let (c1, v1) = spec_exit_copy_mode(c, v, now);
            &&& c1.copy_mode is None
            &&& c1.view_mode == ViewMode::Tail
            &&& v1.follow_tail
            &&& v1.selection is None
            &&& !c1.mouse_capture
        }),
{
    let c1 = ClientView { copy_mode: None, mouse_capture: false, force_render: true, ..c };
    let v1 = RendererView {
        needs_redraw: true,
        ..spec_scroll_to_tail(RendererView { follow_tail: true, ..spec_clear_selection(v) })
    };
    lemma_set_view_mode_facts(c1, v1, ViewMode::Tail, now);
}

/// Entering copy mode, where there are rows, shows scrollback at the
/// cursor copy mode starts at: no selection, the tail not followed, and the
/// mouse captured.
pub proof fn law_enter_shows_scrollback(c: ClientView, v: RendererView, now: u64)
    requires
        c.copy_mode is None,
        spec_copy_mode_start(v) is Some,
    ensures
        ({
            let (c1, v1) = spec_enter_copy_mode(c, v, now);
            &&& c1.copy_mode == Some(fresh_copy_mode(spec_copy_mode_start(v)->0, c.copy_mode_keys))
            &&& c1.view_mode == ViewMode::Scrollback
            &&& !v1.follow_tail
            &&& v1.selection is None
            &&& c1.mouse_capture
        }),
{
    let position = spec_copy_mode_start(v)->0;
    let c1 = ClientView { copy_mode: Some(fresh_copy_mode(position, c.copy_mode_keys)), mouse_capture: true, ..c };
    let v1 = spec_clear_selection(RendererView { follow_tail: false, ..v });
    lemma_set_view_mode_facts(c1, v1, ViewMode::Scrollback, now);
}

/// How many lines a turn of the mouse wheel scrolls.
pub const MOUSE_SCROLL_LINES: isize = 5;

/// The renderer after following the tail again.
pub open spec fn back_to_tail(v: RendererView) -> RendererView {
    spec_scroll_to_tail(RendererView { follow_tail: true, ..spec_scroll_to_tail(v) })
}

/// What a triggered scrollback toggle does: leave copy mode, or return to
/// the tail, or enter copy mode (returning to the tail with an error when
/// there is no scrollback to show).
pub open spec fn spec_perform_scroll_toggle(c: ClientView, v: RendererView, now: u64) -> (ClientView, RendererView) {
    match spec_toggle_action(c.copy_mode is Some, c.view_mode, v.follow_tail) {
        ToggleAction::ExitCopyMode => {
            let (c1, v1) = spec_exit_copy_mode(c, v, now);
            let (c2, v2) = spec_set_view_mode(c1, back_to_tail(v1), ViewMode::Tail, now);
            (ClientView { force_render: true, ..c2 }, v2)
        },
        ToggleAction::FollowTail => {
            let (c2, v2) = spec_set_view_mode(c, back_to_tail(v), ViewMode::Tail, now);
            (ClientView { force_render: true, ..c2 }, v2)
        },
        ToggleAction::EnterCopyMode => {
            let (c1, v1) = spec_enter_copy_mode(c, RendererView { follow_tail: false, ..v }, now);
            if c1.copy_mode is None {
                let (c2, v2) = spec_set_view_mode(
                    c1,
                    spec_scroll_to_tail(RendererView { follow_tail: true, ..v1 }),
                    ViewMode::Tail,
                    now,
                );
                (
                    ClientView { force_render: true, ..c2 },
                    RendererView {
                        status_message: Some("scrollback unavailable"@),
                        status_highlight: None,
                        status_is_error: true,
                        needs_redraw: true,
                        ..v2
                    },
                )
            } else {
                spec_set_view_mode(c1, v1, ViewMode::Scrollback, now)
            }
        },
    }
}

/// A key for the scrollback toggle: when it toggles (see
/// `spec_scroll_toggle_press`), the toggle is performed; the last lone
/// Escape is remembered either way.
pub open spec fn spec_handle_scroll_toggle(c: ClientView, v: RendererView, key: KeyEvent, now: u64) -> (
    ClientView,
    RendererView,
    bool,
) {
    let (triggered, last_esc) = spec_scroll_toggle_press(c.scroll_toggle@, c.double_esc, c.last_plain_esc, key, now);
    let c1 = ClientView { last_plain_esc: last_esc, ..c };
    if triggered {
        let (c2, v2) = spec_perform_scroll_toggle(c1, v, now);
        (c2, v2, true)
    } else {
        (c1, v, false)
    }
}

/// A press of the primary button in copy mode starts a character
/// selection at the position under the mouse.
pub open spec fn spec_mouse_primary_down(c: ClientView, v: RendererView, mouse: MouseEvent) -> (ClientView, RendererView) {
    match (spec_mouse_position(v, mouse), c.copy_mode) {
        (Some(p), Some(st)) => {
            let c1 = ClientView {
                copy_mode: Some(
                    CopyModeState {
                        cursor: p,
                        anchor: p,
                        selection_active: true,
                        selection_mode: SelectionMode::Character,
                        ..st
                    },
                ),
                ..c
            };
            let v1 = RendererView {
                selection: Some(SelectionRange { anchor: p, head: p, mode: SelectionMode::Character }),
                needs_redraw: true,
                follow_tail: false,
                ..v
            };
            let (c2, v2) = spec_update_copy_mode_status(c1, spec_ensure_row_visible(v1, p.row as int));
            (ClientView { force_render: true, ..c2 }, v2)
        },
        _ => (c, v),
    }
}

/// A drag of the primary button in copy mode extends the selection (or
/// starts one) to the position under the mouse, then scrolls at the edges.
pub open spec fn spec_mouse_primary_drag(c: ClientView, v: RendererView, mouse: MouseEvent, now: u64) -> (
    ClientView,
    RendererView,
) {
    let (c1, v1) = match spec_mouse_position(v, mouse) {
        Some(p) => {
            let c0 = match c.copy_mode {
                Some(st) => {
                    let st1 = if !st.selection_active {
                        CopyModeState {
                            selection_active: true,
                            selection_mode: SelectionMode::Character,
                            anchor: st.cursor,
                            ..st
                        }
                    } else {
                        st
                    };
                    ClientView { copy_mode: Some(CopyModeState { cursor: p, ..st1 }), ..c }
                },
                None => c,
            };
            let range = match c0.copy_mode {
                Some(st) => SelectionRange { anchor: st.anchor, head: p, mode: st.selection_mode },
                None => SelectionRange { anchor: p, head: p, mode: SelectionMode::Character },
            };
            let v0 = RendererView { selection: Some(range), needs_redraw: true, ..v };
            (ClientView { force_render: true, ..c0 }, spec_ensure_row_visible(v0, p.row as int))
        },
        None => (c, v),
    };
    spec_maybe_auto_scroll_drag(c1, v1, mouse.row, now)
}

/// A mouse event: the wheel scrolls five lines (entering copy mode when
/// scrolling up); in copy mode the primary button selects (pressed,
/// dragged, released). Whether the event was used is returned.
pub open spec fn spec_handle_mouse_event(c: ClientView, v: RendererView, mouse: MouseEvent, now: u64) -> (
    ClientView,
    RendererView,
    bool,
) {
    match mouse.kind {
        MouseEventKind::ScrollUp => {
            let (c1, v1, _) = spec_apply_scroll_delta(c, v, (-MOUSE_SCROLL_LINES) as isize, true, now);
            (c1, v1, true)
        },
        MouseEventKind::ScrollDown => {
            let (c1, v1, _) = spec_apply_scroll_delta(c, v, MOUSE_SCROLL_LINES, true, now);
            (c1, v1, true)
        },
        MouseEventKind::Down(MouseButton::Left) if c.copy_mode is Some => {
            let (c1, v1) = spec_mouse_primary_down(c, v, mouse);
            (c1, v1, true)
        },
        MouseEventKind::Drag(MouseButton::Left) if c.copy_mode is Some => {
            let (c1, v1) = spec_mouse_primary_drag(c, v, mouse, now);
            (c1, v1, true)
        },
        MouseEventKind::Up(MouseButton::Left) if c.copy_mode is Some => {
            let (c1, v1) = spec_update_copy_mode_status(c, v);
            (c1, v1, true)
        },
        _ => (c, v, false),
    }
}

proof fn lemma_mouse_position_held(v: RendererView, mouse: MouseEvent)
    requires
        v.base_row + v.rows.len() <= i64::MAX,
    ensures
        spec_mouse_position(v, mouse) matches Some(p) ==> p.row <= v.base_row + v.rows.len(),
{
}

/// Whether `key` is Ctrl+Q (either case), which leaves the client.
pub open spec fn is_quit_key(key: KeyEvent) -> bool {
    key.modifiers.control && (key.code matches KeyCode::Char(ch) && (ch == 'q' || ch == 'Q'))
}

/// Whether `key` is Super+K (either case), which clears the viewport.
pub open spec fn is_clear_key(key: KeyEvent) -> bool {
    key.modifiers.super_key && (key.code matches KeyCode::Char(ch) && (ch == 'k' || ch == 'K'))
}

/// Whether a key asks to leave the client (Ctrl+Q).
pub fn handle_control_shortcuts(key: &KeyEvent) -> (res: bool)
    ensures
        res == is_quit_key(*key),
{
    key.modifiers.control && match key.code {
        KeyCode::Char(ch) => ch == 'q' || ch == 'Q',
        _ => false,
    }
}

/// `a * b` for a positive `b`, within the range of `isize`.
fn saturating_mul(a: isize, b: isize) -> (res: isize)
    requires
        b > 0,
    ensures
        res == sat_mul(a, b),
{
    match a.checked_mul(b) {
        Some(p) => p,
        None => {
            assert(a > 0 ==> a * b > 0) by (nonlinear_arith)
                requires
                    b > 0,
            ;
            assert(a <= 0 ==> a * b <= 0) by (nonlinear_arith)
                requires
                    b > 0,
            ;
            if a > 0 {
                isize::MAX
            } else {
                isize::MIN
            }
        },
    }
}

impl ClientView {
    /// Following the tail, outside copy mode, with the given settings.
    pub fn new(double_esc: bool, scroll_toggle: Vec<KeyBinding>, copy_mode_keys: CopyModeKeySet) -> (res: Self)
        ensures
            res.view_mode == ViewMode::Tail,
            res.copy_mode is None,
            res.tail_flash_until is None,
            !res.mouse_capture,
            !res.force_render,
            res.double_esc == double_esc,
            res.scroll_toggle@ == scroll_toggle@,
            res.copy_mode_keys == copy_mode_keys,
            res.tmux_prefix_started_at is None,
            res.last_plain_esc is None,
    {
        ClientView {
            view_mode: ViewMode::Tail,
            copy_mode: None,
            tail_flash_until: None,
            mouse_capture: false,
            force_render: false,
            double_esc,
            scroll_toggle,
            copy_mode_keys,
            tmux_prefix_started_at: None,
            last_plain_esc: None,
        }
    }

    /// Shows the copy-mode status line (see `spec_update_copy_mode_status`).
    pub fn update_copy_mode_status(&mut self, renderer: &mut GridRenderer)
        requires
            old(renderer).wf(),
        ensures
            final(renderer).wf(),
            (*final(self), final(renderer)@) == spec_update_copy_mode_status(*old(self), old(renderer)@),
    {
        match &self.copy_mode {
            None => {
                renderer.set_status_message(None);
            },
            Some(state) => match &state.pending_input {
                Some(CopyModePendingInput::Search { direction, buffer }) => {
                    let text = search_prompt(*direction, buffer.as_str());
                    renderer.set_status_message(Some(text));
                },
                None => {
                    let highlight = copy_mode_highlight(state.selection_active);
                    renderer.set_status_with_highlight(Some(String::from_str("scrollback")), Some(highlight));
                    self.force_render = true;
                },
            },
        }
    }

    /// Shows the tail status line at `now` (see `spec_apply_tail_status`).
    pub fn apply_tail_status(&mut self, renderer: &mut GridRenderer, now: u64)
        requires
            old(renderer).wf(),
        ensures
            final(renderer).wf(),
            (*final(self), final(renderer)@) == spec_apply_tail_status(*old(self), old(renderer)@, now),
    {
        let (highlight, lasting) = tail_status_highlight(
            self.double_esc,
            &self.scroll_toggle,
            self.tail_flash_until,
            now,
        );
        if !lasting {
            self.tail_flash_until = None;
        }
        renderer.set_status_with_highlight(Some(String::from_str("tail")), Some(highlight));
        self.force_render = true;
    }

    /// Shows the scrollback status line (see
    /// `spec_apply_scrollback_status`).
    pub fn apply_scrollback_status(&mut self, renderer: &mut GridRenderer)
        requires
            old(renderer).wf(),
        ensures
            final(renderer).wf(),
            (*final(self), final(renderer)@) == spec_apply_scrollback_status(*old(self), old(renderer)@),
    {
        if self.copy_mode.is_some() {
            self.update_copy_mode_status(renderer);
        } else {
            renderer.set_status_with_highlight(
                Some(String::from_str("scrollback")),
                Some(String::from_str("ESC exit • CTRL+Q quit")),
            );
            self.force_render = true;
        }
    }

    /// Shows the status line of the mode shown.
    pub fn refresh_view_mode_status(&mut self, renderer: &mut GridRenderer, now: u64)
        requires
            old(renderer).wf(),
        ensures
            final(renderer).wf(),
            (*final(self), final(renderer)@) == spec_refresh_view_mode_status(*old(self), old(renderer)@, now),
    {
        match self.view_mode {
            ViewMode::Tail => self.apply_tail_status(renderer, now),
            ViewMode::Scrollback => self.apply_scrollback_status(renderer),
        }
    }

    /// Ends the flash after returning to the tail once its time is up.
    pub fn maybe_update_tail_flash(&mut self, renderer: &mut GridRenderer, now: u64)
        requires
            old(renderer).wf(),
        ensures
            final(renderer).wf(),
            (*final(self), final(renderer)@) == spec_maybe_update_tail_flash(*old(self), old(renderer)@, now),
    {
        if self.view_mode != ViewMode::Tail {
            return;
        }
        if let Some(until) = self.tail_flash_until {
            if now >= until {
                self.tail_flash_until = None;
                self.apply_tail_status(renderer, now);
            }
        }
    }

    /// Shows `mode` (see `spec_set_view_mode`).
    pub fn set_view_mode(&mut self, renderer: &mut GridRenderer, mode: ViewMode, now: u64)
        requires
            old(renderer).wf(),
        ensures
            final(renderer).wf(),
            (*final(self), final(renderer)@) == spec_set_view_mode(*old(self), old(renderer)@, mode, now),
    {
        if self.view_mode == mode {
            if mode == ViewMode::Scrollback && self.copy_mode.is_some() {
                self.update_copy_mode_status(renderer);
            }
            return;
        }
        self.view_mode = mode;
        if mode == ViewMode::Tail {
            self.tail_flash_until = Some(now.saturating_add(TAIL_FLASH_MS));
        } else {
            self.tail_flash_until = None;
        }
        self.refresh_view_mode_status(renderer, now);
    }

    /// Shows the mode that copy mode and following the tail call for.
    pub fn sync_view_mode_with_follow(&mut self, renderer: &mut GridRenderer, now: u64)
        requires
            old(renderer).wf(),
        ensures
            final(renderer).wf(),
            (*final(self), final(renderer)@) == spec_sync_view_mode(*old(self), old(renderer)@, now),
    {
        let target = synced_view_mode(self.copy_mode.is_some(), renderer.is_following_tail());
        if self.view_mode != target {
            self.set_view_mode(renderer, target, now);
        }
    }

    /// Enters copy mode (see `spec_enter_copy_mode`).
    pub fn enter_copy_mode(&mut self, renderer: &mut GridRenderer, now: u64)
        requires
            old(renderer).wf(),
            old(renderer)@.cols <= isize::MAX,
        ensures
            final(renderer).wf(),
            (*final(self), final(renderer)@) == spec_enter_copy_mode(*old(self), old(renderer)@, now),
    {
        if self.copy_mode.is_some() {
            return;
        }
        let position = match copy_mode_start_position(renderer) {
            Some(p) => p,
            None => {
                return;
            },
        };
        self.copy_mode = Some(CopyModeState::new(position, self.copy_mode_keys));
        self.mouse_capture = true;
        renderer.set_follow_tail(false);
        renderer.clear_selection();
        self.set_view_mode(renderer, ViewMode::Scrollback, now);
        self.force_render = true;
    }

    /// Leaves copy mode (see `spec_exit_copy_mode`).
    pub fn exit_copy_mode(&mut self, renderer: &mut GridRenderer, now: u64)
        requires
            old(renderer).wf(),
        ensures
            final(renderer).wf(),
            (*final(self), final(renderer)@) == spec_exit_copy_mode(*old(self), old(renderer)@, now),
    {
        if self.copy_mode.is_none() {
            return;
        }
        self.copy_mode = None;
        self.mouse_capture = false;
        renderer.clear_selection();
        renderer.set_follow_tail(true);
        renderer.mark_dirty();
        self.force_render = true;
        self.set_view_mode(renderer, ViewMode::Tail, now);
    }

    /// The first part of a scroll (see `spec_scroll_measure`).
    fn scroll_and_measure(&mut self, renderer: &mut GridRenderer, delta: isize, auto_enter_copy: bool, now: u64) -> (res: (
        i64,
        bool,
    ))
        requires
            old(renderer).wf(),
            scroll_fits(*old(self), old(renderer)@, delta),
        ensures
            final(renderer).wf(),
            (*final(self), final(renderer)@, res.0, res.1) == spec_scroll_measure(
                *old(self),
                old(renderer)@,
                delta,
                auto_enter_copy,
                now,
            ),
            final(self).copy_mode matches Some(st) ==> st.cursor.row + final(renderer)@.rows.len() <= i64::MAX,
            -(final(renderer)@.rows.len() as int) <= res.0 <= final(renderer)@.rows.len(),
            final(renderer)@.cols <= isize::MAX,
    {
        proof {
            renderer.lemma_view_wf();
            lemma_view_mode_keeps_grid(*self, renderer@, ViewMode::Scrollback, now);
            lemma_start_row_bounded(renderer@);
        }
        if auto_enter_copy && delta < 0 && self.copy_mode.is_none() {
            self.enter_copy_mode(renderer, now);
        }
        let before = renderer.viewport_top();
        renderer.scroll_lines(delta);
        proof {
            renderer.lemma_view_wf();
        }
        let after = renderer.viewport_top();
        let reached_tail = renderer.is_following_tail();
        let actual: i64 = if after >= before {
            (after - before) as i64
        } else {
            -((before - after) as i64)
        };
        (actual, reached_tail)
    }

    /// The rest of a scroll that moved `actual` rows (see
    /// `spec_follow_scroll`).
    fn follow_scroll(&mut self, renderer: &mut GridRenderer, actual: i64, reached_tail: bool, now: u64)
        requires
            old(renderer).wf(),
            old(renderer)@.cols <= isize::MAX,
            old(self).copy_mode matches Some(st) ==> i64::MIN <= (st.cursor.row as i64) + actual <= i64::MAX,
        ensures
            final(renderer).wf(),
            (*final(self), final(renderer)@) == spec_follow_scroll(*old(self), old(renderer)@, actual, reached_tail, now),
    {
        match self.copy_mode.take() {
            Some(mut st) => {
                let selection_active = st.selection_active;
                if actual != 0 && !selection_active {
                    let target = renderer.clamp_position(st.cursor.row as i64 + actual, st.cursor.col as isize);
                    set_copy_cursor_position(renderer, &mut st, target, false);
                }
                self.copy_mode = Some(st);
                if actual > 0 && reached_tail {
                    renderer.scroll_to_tail();
                    if !selection_active {
                        self.exit_copy_mode(renderer, now);
                    }
                }
            },
            None => {
                if actual > 0 && reached_tail {
                    renderer.scroll_to_tail();
                }
            },
        }
        if actual != 0 {
            self.force_render = true;
        }
        self.sync_view_mode_with_follow(renderer, now);
    }

    /// Scrolls the viewport by `delta` rows (see `spec_apply_scroll_delta`)
    /// and returns how many rows it moved.
    pub fn apply_scroll_delta(&mut self, renderer: &mut GridRenderer, delta: isize, auto_enter_copy: bool, now: u64) -> (res: i64)
        requires
            old(renderer).wf(),
            scroll_fits(*old(self), old(renderer)@, delta),
        ensures
            final(renderer).wf(),
            (*final(self), final(renderer)@, res) == spec_apply_scroll_delta(
                *old(self),
                old(renderer)@,
                delta,
                auto_enter_copy,
                now,
            ),
    {
        if delta == 0 {
            return 0;
        }
        let (actual, reached_tail) = self.scroll_and_measure(renderer, delta, auto_enter_copy, now);
        self.follow_scroll(renderer, actual, reached_tail, now);
        actual
    }

    /// Moves the copy cursor by `delta` rows (see `spec_move_copy_cursor_by`).
    fn move_copy_cursor_by(&mut self, renderer: &mut GridRenderer, delta: isize, now: u64)
        requires
            old(renderer).wf(),
            delta != 0,
            cursor_move_fits(*old(self), old(renderer)@, delta),
        ensures
            final(renderer).wf(),
            (*final(self), final(renderer)@) == spec_move_copy_cursor_by(*old(self), old(renderer)@, delta, now),
    {
        let moved = self.apply_scroll_delta(renderer, delta, false, now);
        if moved == 0 {
            proof {
                lemma_still_scroll_keeps_copy_mode(*old(self), old(renderer)@, delta, now);
            }
            match self.copy_mode.take() {
                Some(mut st) => {
                    move_copy_cursor(renderer, &mut st, delta, 0);
                    self.copy_mode = Some(st);
                    self.force_render = true;
                },
                None => {},
            }
        }
    }

    /// Moves the copy cursor by `pages` pages (see
    /// `spec_move_copy_cursor_page`).
    pub fn move_copy_cursor_page(&mut self, renderer: &mut GridRenderer, pages: isize, now: u64)
        requires
            old(renderer).wf(),
            cursor_move_fits(*old(self), old(renderer)@, sat_mul(pages, page_step(old(renderer)@))),
        ensures
            final(renderer).wf(),
            (*final(self), final(renderer)@) == spec_move_copy_cursor_page(*old(self), old(renderer)@, pages, now),
    {
        if pages == 0 || self.copy_mode.is_none() {
            return;
        }
        proof {
            renderer.lemma_view_wf();
        }
        let step = renderer.viewport_height() as isize;
        let delta = saturating_mul(pages, step);
        assert(pages * step != 0) by (nonlinear_arith)
            requires
                pages != 0,
                step > 0,
        ;
        self.move_copy_cursor_by(renderer, delta, now);
    }

    /// Moves the copy cursor by `delta` half pages (see
    /// `spec_move_copy_cursor_half_page`).
    pub fn move_copy_cursor_half_page(&mut self, renderer: &mut GridRenderer, delta: isize, now: u64)
        requires
            old(renderer).wf(),
            cursor_move_fits(*old(self), old(renderer)@, sat_mul(delta, half_page_step(old(renderer)@))),
        ensures
            final(renderer).wf(),
            (*final(self), final(renderer)@) == spec_move_copy_cursor_half_page(*old(self), old(renderer)@, delta, now),
    {
        if delta == 0 || self.copy_mode.is_none() {
            return;
        }
        proof {
            renderer.lemma_view_wf();
        }
        let height = renderer.viewport_height() as isize;
        let half = height / 2;
        let step = if half >= 1 {
            half
        } else {
            1
        };
        let lines = saturating_mul(delta, step);
        assert(delta * step != 0) by (nonlinear_arith)
            requires
                delta != 0,
                step > 0,
        ;
        self.move_copy_cursor_by(renderer, lines, now);
    }

    /// Scrolls a line when a copy-mode drag reaches the top or bottom row of
    /// the viewport (see `spec_maybe_auto_scroll_drag`).
    pub fn maybe_auto_scroll_drag(&mut self, renderer: &mut GridRenderer, mouse_row: u16, now: u64)
        requires
            old(renderer).wf(),
            scroll_fits(*old(self), old(renderer)@, 1),
        ensures
            final(renderer).wf(),
            (*final(self), final(renderer)@) == spec_maybe_auto_scroll_drag(*old(self), old(renderer)@, mouse_row, now),
    {
        if self.copy_mode.is_none() {
            return;
        }
        proof {
            renderer.lemma_view_wf();
        }
        let d = drag_scroll(renderer.viewport_height(), mouse_row);
        if d != 0 {
            self.apply_scroll_delta(renderer, d, false, now);
        }
    }

    /// Forgets the prefix once its time is up.
    pub fn expire_tmux_prefix(&mut self, now: u64)
        ensures
            *final(self) == spec_expire_tmux_prefix(*old(self), now),
    {
        if let Some(started) = self.tmux_prefix_started_at {
            if now >= started && now - started >= TMUX_PREFIX_TIMEOUT_MS {
                self.tmux_prefix_started_at = None;
            }
        }
    }

    /// Enters copy mode and moves a page by `pages` once in it.
    fn enter_and_page(&mut self, renderer: &mut GridRenderer, pages: isize, now: u64)
        requires
            old(renderer).wf(),
            view_fits(*old(self), old(renderer)@),
            pages == 1 || pages == -1,
        ensures
            final(renderer).wf(),
            (*final(self), final(renderer)@) == spec_enter_and_page(*old(self), old(renderer)@, pages, now),
    {
        proof {
            lemma_page_fits_after_enter(*self, renderer@, pages, now);
        }
        self.enter_copy_mode(renderer, now);
        if self.copy_mode.is_some() {
            self.move_copy_cursor_page(renderer, pages, now);
        }
    }

    /// The tmux-style prefix (see `spec_handle_tmux_prefix`).
    pub fn handle_tmux_prefix(&mut self, renderer: &mut GridRenderer, key: &KeyEvent, now: u64) -> (res: PrefixOutcome)
        requires
            old(renderer).wf(),
            view_fits(*old(self), old(renderer)@),
        ensures
            final(renderer).wf(),
            (*final(self), final(renderer)@, res) == spec_handle_tmux_prefix(*old(self), old(renderer)@, *key, now),
            res is NotHandled ==> final(renderer)@ == old(renderer)@ && *final(self) == (ClientView {
                tmux_prefix_started_at: final(self).tmux_prefix_started_at,
                ..*old(self)
            }),
    {
        proof {
            reveal(spec_handle_tmux_prefix);
        }
        self.expire_tmux_prefix(now);
        let is_prefix = match key.code {
            KeyCode::Char(ch) => ch == 'b' || ch == 'B',
            _ => false,
        } && key.modifiers.control && !key.modifiers.alt && !key.modifiers.super_key;
        if is_prefix {
            self.tmux_prefix_started_at = Some(now);
            return PrefixOutcome::Handled;
        }
        if self.tmux_prefix_started_at.is_none() {
            return PrefixOutcome::NotHandled;
        }
        self.tmux_prefix_started_at = None;
        match key.code {
            KeyCode::Char('[') => {
                self.enter_copy_mode(renderer, now);
                PrefixOutcome::Handled
            },
            KeyCode::PageUp => {
                self.enter_and_page(renderer, -1, now);
                PrefixOutcome::Handled
            },
            KeyCode::PageDown => {
                self.enter_and_page(renderer, 1, now);
                PrefixOutcome::Handled
            },
            KeyCode::Char(']') => PrefixOutcome::Paste,
            _ => PrefixOutcome::NotHandled,
        }
    }

    /// Moves the copy cursor to `target`, scrolled into view.
    fn cursor_to(&mut self, renderer: &mut GridRenderer, target: SelectionPosition)
        requires
            old(renderer).wf(),
        ensures
            final(renderer).wf(),
            (*final(self), final(renderer)@) == spec_cursor_to(*old(self), old(renderer)@, target),
    {
        if let Some(mut st) = self.copy_mode.take() {
            set_copy_cursor_position(renderer, &mut st, target, true);
            self.copy_mode = Some(st);
            self.force_render = true;
        }
    }

    /// Shows the selection of copy mode (see `spec_show_selection`).
    fn show_selection(&mut self, renderer: &mut GridRenderer)
        requires
            old(renderer).wf(),
        ensures
            final(renderer).wf(),
            (*final(self), final(renderer)@) == spec_show_selection(*old(self), old(renderer)@),
    {
        if let Some(st) = &self.copy_mode {
            update_copy_mode_selection(renderer, st);
            self.force_render = true;
        }
    }

    /// Applies a selection command to copy mode, when in it.
    fn apply_to_copy_mode(&mut self, command: CopyModeCommand)
        ensures
            *final(self) == with_selection_command(*old(self), command),
    {
        if let Some(mut st) = self.copy_mode.take() {
            apply_selection_command(&mut st, command);
            self.copy_mode = Some(st);
        }
    }

    /// Shows the search prompt while a pattern is typed.
    pub fn update_copy_mode_prompt(&self, renderer: &mut GridRenderer)
        requires
            old(renderer).wf(),
        ensures
            final(renderer).wf(),
            final(renderer)@ == spec_update_copy_mode_prompt(*self, old(renderer)@),
    {
        if let Some(st) = &self.copy_mode {
            if let Some(CopyModePendingInput::Search { direction, buffer }) = &st.pending_input {
                renderer.set_status_message(Some(search_prompt(*direction, buffer.as_str())));
            }
        }
    }

    /// The cursor motions of copy mode.
    fn execute_motion(&mut self, renderer: &mut GridRenderer, command: CopyModeCommand, now: u64)
        requires
            old(renderer).wf(),
            command_fits(*old(self), old(renderer)@, command),
            command is Move || command is MoveToLineStart || command is MoveToLineEnd || command is Page
                || command is HalfPage || command is JumpTop || command is JumpBottom || command is MoveWord,
        ensures
            final(renderer).wf(),
            (*final(self), final(renderer)@, CommandEffect::Nothing) == spec_execute_copy_mode_command(
                *old(self),
                old(renderer)@,
                command,
                typed_pattern(*final(self)),
                now,
            ),
    {
        proof {
            reveal(spec_execute_copy_mode_command);
        }
        match command {
            CopyModeCommand::Move { rows, cols } => {
                if let Some(mut st) = self.copy_mode.take() {
                    move_copy_cursor(renderer, &mut st, rows, cols);
                    self.copy_mode = Some(st);
                    self.force_render = true;
                }
            },
            CopyModeCommand::MoveToLineStart => {
                if let Some(mut st) = self.copy_mode.take() {
                    move_copy_cursor_line_start(renderer, &mut st);
                    self.copy_mode = Some(st);
                    self.force_render = true;
                }
            },
            CopyModeCommand::MoveToLineEnd => {
                if let Some(mut st) = self.copy_mode.take() {
                    move_copy_cursor_line_end(renderer, &mut st);
                    self.copy_mode = Some(st);
                    self.force_render = true;
                }
            },
            CopyModeCommand::Page { delta } => self.move_copy_cursor_page(renderer, delta, now),
            CopyModeCommand::HalfPage { delta } => self.move_copy_cursor_half_page(renderer, delta, now),
            CopyModeCommand::JumpTop => {
                if let Some(mut st) = self.copy_mode.take() {
                    jump_copy_cursor_to_top(renderer, &mut st);
                    self.copy_mode = Some(st);
                    self.force_render = true;
                }
            },
            CopyModeCommand::JumpBottom => {
                if let Some(mut st) = self.copy_mode.take() {
                    jump_copy_cursor_to_bottom(renderer, &mut st);
                    self.copy_mode = Some(st);
                    self.force_render = true;
                }
            },
            CopyModeCommand::MoveWord(motion) => {
                if let Some(mut st) = self.copy_mode.take() {
                    let start = st.cursor;
                    let target = match motion {
                        WordMotion::NextStart => find_word_forward(renderer, start, ForwardWordKind::Start),
                        WordMotion::NextEnd => find_word_forward(renderer, start, ForwardWordKind::End),
                        WordMotion::PrevStart => find_word_backward(renderer, start),
                    };
                    if let Some(position) = target {
                        set_copy_cursor_position(renderer, &mut st, position, true);
                        self.force_render = true;
                    }
                    self.copy_mode = Some(st);
                }
            },
            _ => {},
        }
    }

    /// The selection commands of copy mode.
    fn execute_selection(&mut self, renderer: &mut GridRenderer, command: CopyModeCommand, now: u64)
        requires
            old(renderer).wf(),
            command is BeginSelection || command is ClearSelection || command is ToggleSelection
                || command is SetSelectionMode || command is SetMode,
        ensures
            final(renderer).wf(),
            (*final(self), final(renderer)@, CommandEffect::Nothing) == spec_execute_copy_mode_command(
                *old(self),
                old(renderer)@,
                command,
                typed_pattern(*final(self)),
                now,
            ),
    {
        proof {
            reveal(spec_execute_copy_mode_command);
        }
        self.apply_to_copy_mode(command);
        match command {
            CopyModeCommand::BeginSelection => {
                renderer.set_follow_tail(false);
                self.show_selection(renderer);
            },
            CopyModeCommand::ClearSelection => {
                self.show_selection(renderer);
            },
            CopyModeCommand::ToggleSelection => {
                let active = match &self.copy_mode {
                    Some(st) => st.selection_active,
                    None => false,
                };
                if active {
                    renderer.set_follow_tail(false);
                }
                self.show_selection(renderer);
            },
            CopyModeCommand::SetSelectionMode(_) => {
                self.show_selection(renderer);
                renderer.set_follow_tail(false);
            },
            _ => {},
        }
        self.update_copy_mode_status(renderer);
    }

    /// Runs a copy-mode command (see `spec_execute_copy_mode_command`);
    /// what is left for the caller is returned.
    pub fn execute_copy_mode_command(&mut self, renderer: &mut GridRenderer, command: CopyModeCommand, now: u64) -> (res:
        CommandEffect)
        requires
            old(renderer).wf(),
            command_fits(*old(self), old(renderer)@, command),
        ensures
            final(renderer).wf(),
            (*final(self), final(renderer)@, res) == spec_execute_copy_mode_command(
                *old(self),
                old(renderer)@,
                command,
                typed_pattern(*final(self)),
                now,
            ),
            command is Search && old(self).copy_mode is Some ==> typed_pattern(*final(self))@ == Seq::<char>::empty(),
    {
        proof {
            reveal(spec_execute_copy_mode_command);
        }
        match command {
            CopyModeCommand::CopySelection => CommandEffect::Copy { exit_after: false },
            CopyModeCommand::CopySelectionAndExit => CommandEffect::Copy { exit_after: true },
            CopyModeCommand::Cancel => {
                self.exit_copy_mode(renderer, now);
                CommandEffect::Nothing
            },
            CopyModeCommand::Search(direction) => {
                if let Some(mut st) = self.copy_mode.take() {
                    start_search(&mut st, direction);
                    self.copy_mode = Some(st);
                }
                self.update_copy_mode_prompt(renderer);
                self.force_render = true;
                CommandEffect::Nothing
            },
            CopyModeCommand::RepeatLastSearch(hint) => match &self.copy_mode {
                Some(st) => match &st.last_search {
                    Some(search) => CommandEffect::RepeatSearch(repeat_direction(search.direction, hint)),
                    None => CommandEffect::Nothing,
                },
                None => CommandEffect::Nothing,
            },
            CopyModeCommand::BeginSelection | CopyModeCommand::ClearSelection | CopyModeCommand::ToggleSelection
            | CopyModeCommand::SetSelectionMode(_) | CopyModeCommand::SetMode(_) => {
                self.execute_selection(renderer, command, now);
                CommandEffect::Nothing
            },
            _ => {
                self.execute_motion(renderer, command, now);
                CommandEffect::Nothing
            },
        }
    }

    /// A key while a search pattern is typed (see
    /// `spec_consume_pending_input`); the pattern ended by Enter is
    /// returned with it.
    pub fn consume_copy_mode_pending_input(&mut self, renderer: &mut GridRenderer, key: &KeyEvent) -> (res: (
        PendingStep,
        Option<String>,
    ))
        requires
            old(renderer).wf(),
        ensures
            final(renderer).wf(),
            (*final(self), final(renderer)@, res.0) == spec_consume_pending_input(
                *old(self),
                old(renderer)@,
                *key,
                typed_pattern(*final(self)),
            ),
            old(self).copy_mode matches Some(st) ==> st.pending_input matches Some(
                CopyModePendingInput::Search { direction, buffer },
            ) ==> {
                &&& key.code is Enter ==> (res.1 matches Some(p) && p@ == buffer@)
                &&& key.code is Backspace ==> typed_pattern(*final(self))@ == (if buffer@.len() > 0 {
                    buffer@.drop_last()
                } else {
                    buffer@
                })
                &&& (key.code matches KeyCode::Char(ch) && !key.modifiers.control && !key.modifiers.alt)
                    ==> typed_pattern(*final(self))@ == buffer@.push(key.code->Char_0)
            },
            res.0 is NotConsumed ==> *final(self) == *old(self) && final(renderer)@ == old(renderer)@,
    {
        proof {
            reveal(spec_consume_pending_input);
        }
        let mut st = match self.copy_mode.take() {
            Some(st) => st,
            None => {
                return (PendingStep::NotConsumed, None);
            },
        };
        let outcome = handle_pending_search_key(&mut st, key);
        self.copy_mode = Some(st);
        match outcome {
            PendingSearchOutcome::NotPending => (PendingStep::NotConsumed, None),
            PendingSearchOutcome::Ignored => (PendingStep::NotConsumed, None),
            PendingSearchOutcome::Cancelled => {
                self.update_copy_mode_status(renderer);
                self.force_render = true;
                (PendingStep::Consumed, None)
            },
            PendingSearchOutcome::Submitted { direction, pattern } => (PendingStep::Submitted(direction), Some(pattern)),
            PendingSearchOutcome::Edited => {
                self.force_render = true;
                self.update_copy_mode_prompt(renderer);
                (PendingStep::Consumed, None)
            },
        }
    }

    /// A key in copy mode after the prefix (see `spec_key_in_copy_mode`).
    fn key_in_copy_mode(&mut self, renderer: &mut GridRenderer, key: &KeyEvent, shortcuts: &Vec<KeyBinding>, now: u64) -> (res: (
        CopyKeyStep,
        Option<String>,
    ))
        requires
            old(renderer).wf(),
            old(self).copy_mode is Some,
            view_fits(*old(self), old(renderer)@),
            old(self).copy_mode->0.cursor.col < isize::MAX,
        ensures
            final(renderer).wf(),
            (*final(self), final(renderer)@, res.0) == spec_key_in_copy_mode(
                *old(self),
                old(renderer)@,
                *key,
                shortcuts@,
                typed_pattern(*final(self)),
                now,
            ),
    {
        let (mode, selection_active) = match &self.copy_mode {
            Some(st) => (st.mode, st.selection_active),
            None => (CopyModeKeySet::Vi, false),
        };
        if any_binding_matches_key(shortcuts, key) {
            return (CopyKeyStep::Copy { exit_after: true }, None);
        }
        let ghost c0 = *self;
        let ghost v0 = renderer@;
        let (step, pattern) = self.consume_copy_mode_pending_input(renderer, key);
        match step {
            PendingStep::Consumed => (CopyKeyStep::Handled, None),
            PendingStep::Submitted(direction) => (CopyKeyStep::Search(direction), pattern),
            PendingStep::NotConsumed => match copy_mode_command_for_key(mode, selection_active, key) {
                Some(command) => {
                    proof {
                        lemma_key_commands_are_small(mode, selection_active, *key);
                        lemma_small_commands_fit(*self, renderer@, command);
                    }
                    let ghost typed_before = typed_pattern(*self);
                    let effect = self.execute_copy_mode_command(renderer, command, now);
                    proof {
                        lemma_unused_key_ignores_pattern(c0, v0, *key, typed_before, typed_pattern(*self));
                    }
                    let step = match effect {
                        CommandEffect::Nothing => CopyKeyStep::Handled,
                        CommandEffect::Copy { exit_after } => CopyKeyStep::Copy { exit_after },
                        CommandEffect::RepeatSearch(d) => CopyKeyStep::RepeatSearch(d),
                    };
                    (step, None)
                },
                None => (CopyKeyStep::NotHandled, None),
            },
        }
    }

    /// A key outside copy mode after the prefix (see
    /// `spec_key_outside_copy_mode`).
    fn key_outside_copy_mode(&mut self, renderer: &mut GridRenderer, key: &KeyEvent, now: u64) -> (res: CopyKeyStep)
        requires
            old(renderer).wf(),
            old(self).copy_mode is None,
            view_fits(*old(self), old(renderer)@),
        ensures
            final(renderer).wf(),
            (*final(self), final(renderer)@, res) == spec_key_outside_copy_mode(*old(self), old(renderer)@, *key, now),
    {
        let page_up = match key.code {
            KeyCode::PageUp => true,
            _ => false,
        };
        if page_up {
            self.enter_and_page(renderer, -1, now);
            return CopyKeyStep::Handled;
        }
        let bracket = match key.code {
            KeyCode::Char(ch) => ch == '[',
            _ => false,
        };
        if key.modifiers.alt && bracket {
            self.enter_copy_mode(renderer, now);
            return CopyKeyStep::Handled;
        }
        CopyKeyStep::NotHandled
    }

    /// A key in copy mode, or toward it (see `spec_process_copy_mode_key`);
    /// `shortcuts` are the copy shortcuts. The pattern to search for comes
    /// with `CopyKeyStep::Search`.
    pub fn process_copy_mode_key(
        &mut self,
        renderer: &mut GridRenderer,
        key: &KeyEvent,
        shortcuts: &Vec<KeyBinding>,
        now: u64,
    ) -> (res: (CopyKeyStep, Option<String>))
        requires
            old(renderer).wf(),
            view_fits(*old(self), old(renderer)@),
            old(self).copy_mode matches Some(st) ==> st.cursor.col < isize::MAX,
        ensures
            final(renderer).wf(),
            (*final(self), final(renderer)@, res.0) == spec_process_copy_mode_key(
                *old(self),
                old(renderer)@,
                *key,
                shortcuts@,
                typed_pattern(*final(self)),
                now,
            ),
    {
        let prefix = self.handle_tmux_prefix(renderer, key, now);
        match prefix {
            PrefixOutcome::Handled => (CopyKeyStep::Handled, None),
            PrefixOutcome::Paste => (CopyKeyStep::Paste, None),
            PrefixOutcome::NotHandled => {
                if self.copy_mode.is_some() {
                    self.key_in_copy_mode(renderer, key, shortcuts, now)
                } else {
                    (self.key_outside_copy_mode(renderer, key, now), None)
                }
            },
        }
    }

    /// Performs a triggered scrollback toggle (see
    /// `spec_perform_scroll_toggle`).
    fn perform_scroll_toggle(&mut self, renderer: &mut GridRenderer, now: u64)
        requires
            old(renderer).wf(),
            old(renderer)@.cols <= isize::MAX,
        ensures
            final(renderer).wf(),
            (*final(self), final(renderer)@) == spec_perform_scroll_toggle(*old(self), old(renderer)@, now),
    {
        match toggle_action(self.copy_mode.is_some(), self.view_mode, renderer.is_following_tail()) {
            ToggleAction::ExitCopyMode => {
                self.exit_copy_mode(renderer, now);
                renderer.scroll_to_tail();
                renderer.set_follow_tail(true);
                self.set_view_mode(renderer, ViewMode::Tail, now);
                self.force_render = true;
            },
            ToggleAction::FollowTail => {
                renderer.scroll_to_tail();
                renderer.set_follow_tail(true);
                self.set_view_mode(renderer, ViewMode::Tail, now);
                self.force_render = true;
            },
            ToggleAction::EnterCopyMode => {
                renderer.set_follow_tail(false);
                self.enter_copy_mode(renderer, now);
                if self.copy_mode.is_none() {
                    renderer.set_follow_tail(true);
                    self.set_view_mode(renderer, ViewMode::Tail, now);
                    renderer.set_status_error_message(Some(String::from_str("scrollback unavailable")));
                    self.force_render = true;
                } else {
                    self.set_view_mode(renderer, ViewMode::Scrollback, now);
                }
            },
        }
    }

    /// A key for the scrollback toggle (see `spec_handle_scroll_toggle`);
    /// whether it toggled is returned.
    pub fn handle_scroll_toggle(&mut self, renderer: &mut GridRenderer, key: &KeyEvent, now: u64) -> (res: bool)
        requires
            old(renderer).wf(),
            old(renderer)@.cols <= isize::MAX,
        ensures
            final(renderer).wf(),
            (*final(self), final(renderer)@, res) == spec_handle_scroll_toggle(*old(self), old(renderer)@, *key, now),
    {
        let (triggered, last_esc) = scroll_toggle_press(
            &self.scroll_toggle,
            self.double_esc,
            self.last_plain_esc,
            key,
            now,
        );
        self.last_plain_esc = last_esc;
        if triggered {
            self.perform_scroll_toggle(renderer, now);
        }
        triggered
    }

    /// A press of the primary button in copy mode (see
    /// `spec_mouse_primary_down`).
    fn handle_mouse_primary_down(&mut self, renderer: &mut GridRenderer, mouse: &MouseEvent)
        requires
            old(renderer).wf(),
            old(renderer)@.cols <= isize::MAX,
        ensures
            final(renderer).wf(),
            (*final(self), final(renderer)@) == spec_mouse_primary_down(*old(self), old(renderer)@, *mouse),
    {
        let position = match mouse_position_to_selection(renderer, mouse) {
            Some(p) => p,
            None => {
                return;
            },
        };
        if let Some(mut st) = self.copy_mode.take() {
            st.cursor = position;
            st.anchor = position;
            st.selection_active = true;
            st.selection_mode = SelectionMode::Character;
            self.copy_mode = Some(st);
            renderer.set_selection(position, position, SelectionMode::Character);
            renderer.set_follow_tail(false);
            renderer.ensure_row_visible(position.row);
            self.update_copy_mode_status(renderer);
            self.force_render = true;
        }
    }

    /// A drag of the primary button in copy mode (see
    /// `spec_mouse_primary_drag`).
    fn handle_mouse_primary_drag(&mut self, renderer: &mut GridRenderer, mouse: &MouseEvent, now: u64)
        requires
            old(renderer).wf(),
            view_fits(*old(self), old(renderer)@),
        ensures
            final(renderer).wf(),
            (*final(self), final(renderer)@) == spec_mouse_primary_drag(*old(self), old(renderer)@, *mouse, now),
    {
        proof {
            lemma_mouse_position_held(renderer@, *mouse);
        }
        if let Some(position) = mouse_position_to_selection(renderer, mouse) {
            if let Some(mut st) = self.copy_mode.take() {
                if !st.selection_active {
                    st.begin_selection(SelectionMode::Character);
                }
                st.cursor = position;
                renderer.set_selection(st.anchor, position, st.selection_mode);
                self.copy_mode = Some(st);
            } else {
                renderer.set_selection(position, position, SelectionMode::Character);
            }
            renderer.ensure_row_visible(position.row);
            self.force_render = true;
        }
        proof {
            renderer.lemma_view_wf();
        }
        self.maybe_auto_scroll_drag(renderer, mouse.row, now);
    }

    /// A mouse event (see `spec_handle_mouse_event`); whether it was used
    /// is returned.
    pub fn handle_mouse_event(&mut self, renderer: &mut GridRenderer, mouse: &MouseEvent, now: u64) -> (res: bool)
        requires
            old(renderer).wf(),
            view_fits(*old(self), old(renderer)@),
        ensures
            final(renderer).wf(),
            (*final(self), final(renderer)@, res) == spec_handle_mouse_event(*old(self), old(renderer)@, *mouse, now),
    {
        match mouse.kind {
            MouseEventKind::ScrollUp => {
                self.apply_scroll_delta(renderer, -MOUSE_SCROLL_LINES, true, now);
                true
            },
            MouseEventKind::ScrollDown => {
                self.apply_scroll_delta(renderer, MOUSE_SCROLL_LINES, true, now);
                true
            },
            MouseEventKind::Down(MouseButton::Left) => {
                if self.copy_mode.is_some() {
                    self.handle_mouse_primary_down(renderer, mouse);
                    true
                } else {
                    false
                }
            },
            MouseEventKind::Drag(MouseButton::Left) => {
                if self.copy_mode.is_some() {
                    self.handle_mouse_primary_drag(renderer, mouse, now);
                    true
                } else {
                    false
                }
            },
            MouseEventKind::Up(MouseButton::Left) => {
                if self.copy_mode.is_some() {
                    self.update_copy_mode_status(renderer);
                    true
                } else {
                    false
                }
            },
            _ => false,
        }
    }

    /// Super+K redraws the screen; the caller then asks the host to clear
    /// the viewport. Whether the key was that shortcut is returned.
    pub fn handle_super_shortcuts(&mut self, renderer: &mut GridRenderer, key: &KeyEvent) -> (res: bool)
        requires
            old(renderer).wf(),
        ensures
            final(renderer).wf(),
            res == is_clear_key(*key),
            res ==> *final(self) == (ClientView { force_render: true, ..*old(self) }) && final(renderer)@ == (
            RendererView { needs_redraw: true, ..old(renderer)@ }),
            !res ==> *final(self) == *old(self) && final(renderer)@ == old(renderer)@,
    {
        let clear = key.modifiers.super_key && match key.code {
            KeyCode::Char(ch) => ch == 'k' || ch == 'K',
            _ => false,
        };
        if clear {
            self.force_render = true;
            renderer.mark_dirty();
        }
        clear
    }
}

} // verus!

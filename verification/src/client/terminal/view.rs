//! Following the tail or reading scrollback: which mode the client shows,
//! what the scrollback toggle does, where the mouse points in the grid, and
//! the status texts of the two modes.
//!
//! Times are readings of a monotonic clock in milliseconds, supplied by the
//! caller.

use vstd::prelude::*;
use vstd::string::StringExecFns;

use super::keys::{
    format_key_binding, spec_format_key_binding, KeyBinding, KeyCode, KeyEvent, KeyEventKind, MouseEvent,
    no_modifiers,
};
use crate::client::grid_renderer::text::spec_clamp_position;
use crate::client::grid_renderer::{GridRenderer, RendererView, SelectionPosition};

verus! {

/// Whether the client follows the newest output or shows scrollback.
#[derive(Clone, Copy, Debug, PartialEq, Eq, Structural)]
pub enum ViewMode {
    Tail,
    Scrollback,
}

/// How soon a second Escape must follow the first to toggle scrollback.
pub open spec fn double_esc_ms() -> u64 {
    400
}

/// Whether a press is a plain Escape.
pub open spec fn is_plain_esc(key: KeyEvent) -> bool {
    key.code == KeyCode::Esc && key.modifiers == no_modifiers()
}

/// Whether some binding of `bindings` matches `key`.
pub open spec fn any_binding_matches(bindings: Seq<KeyBinding>, key: KeyEvent) -> bool {
    exists|i: int|
        0 <= i < bindings.len() && key.kind == KeyEventKind::Press && key.code == (#[trigger] bindings[i]).code
            && key.modifiers == bindings[i].modifiers
}

/// Whether some binding of `bindings` matches `key` (a press of its key
/// with exactly its modifiers).
pub fn any_binding_matches_key(bindings: &Vec<KeyBinding>, key: &KeyEvent) -> (res: bool)
    ensures
        res == any_binding_matches(bindings@, *key),
{
    let mut i: usize = 0;
    while i < bindings.len()
        invariant
            i <= bindings@.len(),
            forall|j: int|
                0 <= j < i ==> !(key.kind == KeyEventKind::Press && key.code == (#[trigger] bindings@[j]).code
                    && key.modifiers == bindings@[j].modifiers),
        decreases bindings@.len() - i,
    {
        if bindings[i].matches(key) {
            return true;
        }
        i = i + 1;
    }
    false
}

/// Whether a key toggles scrollback, and when the last lone Escape was
/// pressed afterwards: a press of a toggle binding toggles; with the
/// double-Escape toggle on, a plain Escape toggles when it follows another
/// within the window (and is remembered otherwise); any other press forgets
/// the last Escape. Releases and repeats neither toggle nor change anything.
pub open spec fn spec_scroll_toggle_press(
    bindings: Seq<KeyBinding>,
    double_esc: bool,
    last_esc: Option<u64>,
    key: KeyEvent,
    now: u64,
) -> (bool, Option<u64>) {
    if key.kind != KeyEventKind::Press {
        (false, last_esc)
    } else if any_binding_matches(bindings, key) {
        (true, None)
    } else if double_esc && is_plain_esc(key) {
        match last_esc {
            Some(last) => if (if now >= last {
                now - last
            } else {
                0
            }) <= double_esc_ms() {
                (true, None)
            } else {
                (false, Some(now))
            },
            None => (false, Some(now)),
        }
    } else {
        (false, None)
    }
}

/// Whether a key toggles scrollback, and when the last lone Escape was
/// pressed afterwards (see `spec_scroll_toggle_press`).
pub fn scroll_toggle_press(
    bindings: &Vec<KeyBinding>,
    double_esc: bool,
    last_esc: Option<u64>,
    key: &KeyEvent,
    now: u64,
) -> (res: (bool, Option<u64>))
    ensures
        res == spec_scroll_toggle_press(bindings@, double_esc, last_esc, *key, now),
{
    if key.kind != KeyEventKind::Press {
        return (false, last_esc);
    }
    if any_binding_matches_key(bindings, key) {
        return (true, None);
    }
    if double_esc && key.code == KeyCode::Esc && key.modifiers == super::keys::KeyModifiers::none() {
        match last_esc {
            Some(last) => {
                if now.saturating_sub(last) <= 400 {
                    (true, None)
                } else {
                    (false, Some(now))
                }
            },
            None => (false, Some(now)),
        }
    } else {
        (false, None)
    }
}

/// What a triggered scrollback toggle does.
#[derive(Clone, Copy, Debug, PartialEq, Eq, Structural)]
pub enum ToggleAction {
    /// Leave copy mode and follow the tail.
    ExitCopyMode,
    /// Follow the tail again.
    FollowTail,
    /// Enter copy mode on the scrollback.
    EnterCopyMode,
}

/// What a triggered scrollback toggle does: leave copy mode when in it;
/// else follow the tail when showing scrollback or not following it; else
/// enter copy mode.
pub open spec fn spec_toggle_action(in_copy_mode: bool, mode: ViewMode, following_tail: bool) -> ToggleAction {
    if in_copy_mode {
        ToggleAction::ExitCopyMode
    } else if mode == ViewMode::Scrollback || !following_tail {
        ToggleAction::FollowTail
    } else {
        ToggleAction::EnterCopyMode
    }
}

/// What a triggered scrollback toggle does (see `spec_toggle_action`).
pub fn toggle_action(in_copy_mode: bool, mode: ViewMode, following_tail: bool) -> (res: ToggleAction)
    ensures
        res == spec_toggle_action(in_copy_mode, mode, following_tail),
{
    if in_copy_mode {
        ToggleAction::ExitCopyMode
    } else if mode == ViewMode::Scrollback || !following_tail {
        ToggleAction::FollowTail
    } else {
        ToggleAction::EnterCopyMode
    }
}

/// The mode the client shows: scrollback in copy mode or when not
/// following the tail, else the tail.
pub open spec fn spec_synced_view_mode(in_copy_mode: bool, following_tail: bool) -> ViewMode {
    if in_copy_mode || !following_tail {
        ViewMode::Scrollback
    } else {
        ViewMode::Tail
    }
}

/// The mode the client shows (see `spec_synced_view_mode`).
pub fn synced_view_mode(in_copy_mode: bool, following_tail: bool) -> (res: ViewMode)
    ensures
        res == spec_synced_view_mode(in_copy_mode, following_tail),
{
    if in_copy_mode || !following_tail {
        ViewMode::Scrollback
    } else {
        ViewMode::Tail
    }
}

/// The grid position under the mouse: the viewport row it is on and its
/// column, clamped to the text; none below the viewport.
pub open spec fn spec_mouse_position(v: RendererView, mouse: MouseEvent) -> Option<SelectionPosition> {
    let height = if v.viewport_height >= 1 {
        v.viewport_height
    } else {
        1
    };
    if mouse.row >= height {
        None
    } else {
        let top = v.base_row + v.scroll_top;
        let row = if top + mouse.row <= u64::MAX {
            top + mouse.row
        } else {
            u64::MAX as int
        };
        Some(spec_clamp_position(v, ((row as u64) as i64) as int, mouse.column as int))
    }
}

/// The grid position under the mouse (see `spec_mouse_position`).
pub fn mouse_position_to_selection(renderer: &GridRenderer, mouse: &MouseEvent) -> (res: Option<SelectionPosition>)
    requires
        renderer.wf(),
        renderer@.cols <= isize::MAX,
    ensures
        res == spec_mouse_position(renderer@, *mouse),
{
    let height = renderer.viewport_height();
    let offset = mouse.row as usize;
    if offset >= height {
        return None;
    }
    let row = renderer.viewport_top().saturating_add(offset as u64);
    Some(renderer.clamp_position(row as i64, mouse.column as isize))
}

/// How far a drag at viewport row `mouse_row` scrolls: up a line at the
/// top row, down a line at the bottom row, not at all in between.
pub open spec fn spec_drag_scroll(viewport_height: usize, mouse_row: u16) -> isize {
    if mouse_row == 0 {
        -1isize
    } else if mouse_row >= (if viewport_height >= 1 {
        viewport_height - 1
    } else {
        0
    }) {
        1isize
    } else {
        0isize
    }
}

/// How far a drag at viewport row `mouse_row` scrolls (see
/// `spec_drag_scroll`); `viewport_height` is the renderer's.
pub fn drag_scroll(viewport_height: usize, mouse_row: u16) -> (res: isize)
    ensures
        res == spec_drag_scroll(viewport_height, mouse_row),
{
    let edge = mouse_row as usize;
    if edge == 0 {
        -1
    } else if edge >= viewport_height.saturating_sub(1) {
        1
    } else {
        0
    }
}

/// The highlighted part of the status line while following the tail: the
/// double-Escape toggle when it is on, the first toggle binding, and how
/// to quit, separated by ` • `.
pub open spec fn spec_tail_highlight(double_esc: bool, bindings: Seq<KeyBinding>) -> Seq<char> {
    (if double_esc {
        "ESC ESC to scrollback • "@
    } else {
        ""@
    }) + (if bindings.len() > 0 {
        spec_format_key_binding(bindings[0]) + " to scrollback • "@
    } else {
        ""@
    }) + "CTRL+Q quit"@
}

/// The highlighted part of the status line while following the tail (see
/// `spec_tail_highlight`).
pub fn tail_highlight_text(double_esc: bool, bindings: &Vec<KeyBinding>) -> (res: String)
    ensures
        res@ == spec_tail_highlight(double_esc, bindings@),
{
    let mut text = String::from_str("");
    let ghost empty = text@;
    if double_esc {
        text.append("ESC ESC to scrollback • ");
    }
    let ghost first = text@;
    if bindings.len() > 0 {
        let binding = format_key_binding(&bindings[0]);
        text.append(binding.as_str());
        text.append(" to scrollback • ");
    }
    let ghost second = text@;
    text.append("CTRL+Q quit");
    proof {
        reveal_strlit("");
        assert(first =~= (if double_esc { "ESC ESC to scrollback • "@ } else { ""@ }));
        assert(second =~= first + (if bindings@.len() > 0 {
            spec_format_key_binding(bindings@[0]) + " to scrollback • "@
        } else {
            ""@
        }));
    }
    text
}

/// The highlighted part of the status line while following the tail, at
/// `now`: prefixed with `TAIL • ` while the flash after returning to the
/// tail lasts (until `flash_until`).
pub open spec fn spec_tail_status_highlight(
    double_esc: bool,
    bindings: Seq<KeyBinding>,
    flash_until: Option<u64>,
    now: u64,
) -> Seq<char> {
    let flashing = flash_until matches Some(u) && now < u;
    if flashing {
        "TAIL • "@ + spec_tail_highlight(double_esc, bindings)
    } else {
        spec_tail_highlight(double_esc, bindings)
    }
}

/// The highlighted part of the status line while following the tail, at
/// `now`, and whether the flash still lasts (see
/// `spec_tail_status_highlight`).
pub fn tail_status_highlight(double_esc: bool, bindings: &Vec<KeyBinding>, flash_until: Option<u64>, now: u64) -> (res: (
    String,
    bool,
))
    ensures
        res.0@ == spec_tail_status_highlight(double_esc, bindings@, flash_until, now),
        res.1 == (flash_until matches Some(u) && now < u),
{
    let base = tail_highlight_text(double_esc, bindings);
    let flashing = match flash_until {
        Some(until) => now < until,
        None => false,
    };
    if flashing {
        let mut text = String::from_str("TAIL • ");
        text.append(base.as_str());
        (text, true)
    } else {
        (base, false)
    }
}

} // verus!

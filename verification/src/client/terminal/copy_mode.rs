//! Where copy-mode motions take the cursor over the rows a renderer holds:
//! word motions across rows, and the positions copy mode starts at or jumps
//! to.

use vstd::prelude::*;

use super::keys::{CopyModeCommand, KeyCode, KeyEvent, WordMotion};
use super::{
    spec_reverse_direction, CopyModeKeySet, CopyModePendingInput, CopyModeSearchDirection, CopyModeState, find_next_word_end_in_line, find_next_word_start_in_line, find_prev_word_start_in_line, spec_next_word_end,
    spec_next_word_start, spec_prev_word_start,
};
use crate::client::grid_renderer::text::{spec_clamp_position, spec_clear_selection, spec_row_display_width};
use crate::client::grid_renderer::viewport::spec_ensure_row_visible;
use crate::client::grid_renderer::{
    rel_index, CellState, GridRenderer, RendererView, SelectionMode, SelectionPosition, SelectionRange, SlotView,
};
use crate::text::{str_chars, string_from_chars};
use vstd::string::StringExecFns;

verus! {

/// Which end of the next word a forward motion goes to.
#[derive(Clone, Copy, Debug, PartialEq, Eq, Structural)]
pub enum ForwardWordKind {
    Start,
    End,
}

/// The characters of absolute row `row` when it is loaded; no characters
/// otherwise.
pub open spec fn row_chars(v: RendererView, row: int) -> Seq<char> {
    match rel_index(v, row) {
        Some(i) => match v.rows[i] {
            SlotView::Loaded(r) => r.cells.map_values(|c: CellState| c.ch),
            _ => Seq::empty(),
        },
        None => Seq::empty(),
    }
}

/// The column a forward word motion stops at within a line.
pub open spec fn forward_hit(chars: Seq<char>, kind: ForwardWordKind, start_col: Option<usize>) -> Option<usize> {
    match kind {
        ForwardWordKind::Start => spec_next_word_start(chars, start_col),
        ForwardWordKind::End => spec_next_word_end(chars, start_col),
    }
}

/// A forward word motion from row `row` on (from column `start_col` on the
/// first row searched, from the start of later rows), up to row
/// `total - 1`.
pub open spec fn word_forward_from(
    v: RendererView,
    start_col: usize,
    kind: ForwardWordKind,
    row: int,
    first: bool,
    total: int,
) -> Option<SelectionPosition>
    decreases total - row,
{
    if row >= total || row < 0 {
        None
    } else {
        match forward_hit(
            row_chars(v, row),
            kind,
            if first {
                Some(start_col)
            } else {
                None
            },
        ) {
            Some(col) => Some(SelectionPosition { row: row as u64, col }),
            None => if row >= total - 1 {
                None
            } else {
                word_forward_from(v, start_col, kind, row + 1, false, total)
            },
        }
    }
}

/// Where a forward word motion from `start` stops: the first word start
/// (or end) after `start` on its row or on a later row.
pub open spec fn spec_find_word_forward(v: RendererView, start: SelectionPosition, kind: ForwardWordKind) -> Option<
    SelectionPosition,
> {
    word_forward_from(v, start.col, kind, start.row as int, true, v.base_row + v.rows.len())
}

fn row_chars_of(renderer: &GridRenderer, row: u64) -> (res: Vec<char>)
    requires
        renderer.wf(),
    ensures
        res@ == row_chars(renderer@, row as int),
{
    match renderer.row_text(row) {
        Some(text) => str_chars(text.as_str()),
        None => Vec::new(),
    }
}

/// Where a forward word motion from `start` stops (see
/// `spec_find_word_forward`).
pub fn find_word_forward(renderer: &GridRenderer, start: SelectionPosition, kind: ForwardWordKind) -> (res: Option<
    SelectionPosition,
>)
    requires
        renderer.wf(),
    ensures
        res == spec_find_word_forward(renderer@, start, kind),
{
    let total = renderer.total_rows();
    if total == 0 {
        return None;
    }
    let mut row = start.row;
    let mut first = true;
    while row < total
        invariant
            renderer.wf(),
            total == renderer@.base_row + renderer@.rows.len(),
            total > 0,
            first ==> row == start.row,
            spec_find_word_forward(renderer@, start, kind) == word_forward_from(
                renderer@,
                start.col,
                kind,
                row as int,
                first,
                total as int,
            ),
        decreases total - row,
    {
        let chars = row_chars_of(renderer, row);
        let from = if first {
            Some(start.col)
        } else {
            None
        };
        let hit = match kind {
            ForwardWordKind::Start => find_next_word_start_in_line(chars.as_slice(), from),
            ForwardWordKind::End => find_next_word_end_in_line(chars.as_slice(), from),
        };
        if let Some(col) = hit {
            return Some(SelectionPosition { row, col });
        }
        if row >= total - 1 {
            return None;
        }
        row = row + 1;
        first = false;
    }
    None
}

/// A backward word motion from row `row` down to the first row held (from
/// column `start_col` on the first row searched, from the end of earlier
/// rows).
pub open spec fn word_backward_from(v: RendererView, start_col: usize, row: int, first: bool) -> Option<
    SelectionPosition,
>
    decreases row,
{
    if row < v.base_row || row < 0 {
        None
    } else {
        match spec_prev_word_start(
            row_chars(v, row),
            if first {
                Some(start_col)
            } else {
                None
            },
        ) {
            Some(col) => Some(SelectionPosition { row: row as u64, col }),
            None => if row == v.base_row || row == 0 {
                None
            } else {
                word_backward_from(v, start_col, row - 1, false)
            },
        }
    }
}

/// Where a backward word motion from `start` stops: the start of the word
/// before `start` on its row or on an earlier row held.
pub open spec fn spec_find_word_backward(v: RendererView, start: SelectionPosition) -> Option<SelectionPosition> {
    word_backward_from(v, start.col, start.row as int, true)
}

/// Where a backward word motion from `start` stops (see
/// `spec_find_word_backward`).
pub fn find_word_backward(renderer: &GridRenderer, start: SelectionPosition) -> (res: Option<SelectionPosition>)
    requires
        renderer.wf(),
    ensures
        res == spec_find_word_backward(renderer@, start),
{
    let base_row = renderer.base_row();
    let mut row = start.row;
    let mut first = true;
    loop
        invariant
            renderer.wf(),
            base_row == renderer@.base_row,
            first ==> row == start.row,
            spec_find_word_backward(renderer@, start) == word_backward_from(renderer@, start.col, row as int, first),
        decreases row,
    {
        if row < base_row {
            return None;
        }
        let chars = row_chars_of(renderer, row);
        let from = if first {
            Some(start.col)
        } else {
            None
        };
        if let Some(col) = find_prev_word_start_in_line(chars.as_slice(), from) {
            return Some(SelectionPosition { row, col });
        }
        if row == base_row || row == 0 {
            return None;
        }
        row = row - 1;
        first = false;
    }
}


/// The renderer showing the selection of copy-mode state `state`: from
/// its anchor to its cursor while a selection is active, none otherwise.
pub open spec fn spec_show_copy_selection(v: RendererView, state: CopyModeState) -> RendererView {
    if state.selection_active {
        RendererView {
            selection: Some(SelectionRange { anchor: state.anchor, head: state.cursor, mode: state.selection_mode }),
            needs_redraw: true,
            ..v
        }
    } else {
        spec_clear_selection(v)
    }
}

/// Shows the selection of `state` on the renderer (see
/// `spec_show_copy_selection`).
pub fn update_copy_mode_selection(renderer: &mut GridRenderer, state: &CopyModeState)
    requires
        old(renderer).wf(),
    ensures
        final(renderer).wf(),
        final(renderer)@ == spec_show_copy_selection(old(renderer)@, *state),
{
    if state.selection_active {
        renderer.set_selection(state.anchor, state.cursor, state.selection_mode);
    } else {
        renderer.clear_selection();
    }
}

/// Copy-mode state with the cursor at `position`; the anchor follows the
/// cursor while no selection is active.
pub open spec fn spec_with_cursor(state: CopyModeState, position: SelectionPosition) -> CopyModeState {
    CopyModeState {
        cursor: position,
        anchor: if state.selection_active {
            state.anchor
        } else {
            position
        },
        ..state
    }
}

/// The renderer after the copy cursor moved: the new selection shown, the
/// tail no longer followed, and the cursor's row scrolled into view when
/// `ensure_visible`.
pub open spec fn spec_after_cursor_move(
    v: RendererView,
    state: CopyModeState,
    position: SelectionPosition,
    ensure_visible: bool,
) -> RendererView {
    let shown = RendererView { follow_tail: false, ..spec_show_copy_selection(v, spec_with_cursor(state, position)) };
    if ensure_visible {
        spec_ensure_row_visible(shown, position.row as int)
    } else {
        shown
    }
}

/// Moves the copy cursor to `position`: the anchor follows it while no
/// selection is active, the selection is shown, the tail is no longer
/// followed, and the row is scrolled into view when `ensure_visible`.
pub fn set_copy_cursor_position(
    renderer: &mut GridRenderer,
    state: &mut CopyModeState,
    position: SelectionPosition,
    ensure_visible: bool,
)
    requires
        old(renderer).wf(),
    ensures
        final(renderer).wf(),
        *final(state) == spec_with_cursor(*old(state), position),
        final(renderer)@ == spec_after_cursor_move(old(renderer)@, *old(state), position, ensure_visible),
{
    state.cursor = position;
    if !state.selection_active {
        state.anchor = position;
    }
    update_copy_mode_selection(renderer, state);
    renderer.set_follow_tail(false);
    if ensure_visible {
        renderer.ensure_row_visible(position.row);
    }
}

/// Where copy mode starts: column 0 of the last row of the viewport (at
/// most the last row held), clamped to the text; none without rows or
/// columns.
pub open spec fn spec_copy_mode_start(v: RendererView) -> Option<SelectionPosition> {
    let total = v.base_row + v.rows.len();
    if total == 0 || v.cols == 0 {
        None
    } else {
        let height = if v.viewport_height >= 1 {
            v.viewport_height
        } else {
            1
        };
        let bottom = v.base_row + v.scroll_top + height - 1;
        let last = total - 1;
        let start_row = if bottom <= u64::MAX {
            if bottom <= last {
                bottom
            } else {
                last
            }
        } else {
            last
        };
        Some(spec_clamp_position(v, (start_row as i64) as int, 0))
    }
}

/// Where copy mode starts (see `spec_copy_mode_start`).
pub fn copy_mode_start_position(renderer: &GridRenderer) -> (res: Option<SelectionPosition>)
    requires
        renderer.wf(),
        renderer@.cols <= isize::MAX,
    ensures
        res == spec_copy_mode_start(renderer@),
{
    let total_rows = renderer.total_rows();
    let total_cols = renderer.total_cols();
    if total_rows == 0 || total_cols == 0 {
        return None;
    }
    let viewport_top = renderer.viewport_top();
    let height = renderer.viewport_height() as u64;
    let max_row = total_rows - 1;
    let bottom = viewport_top.saturating_add(height - 1);
    let start_row = if bottom <= max_row {
        bottom
    } else {
        max_row
    };
    Some(renderer.clamp_position(start_row as i64, 0))
}

/// The position a copy-mode move by (`delta_row`, `delta_col`) from
/// `cursor` aims at, clamped to the text.
pub open spec fn spec_move_target(v: RendererView, cursor: SelectionPosition, delta_row: isize, delta_col: isize)
    -> SelectionPosition {
    spec_clamp_position(v, (cursor.row as i64) + delta_row, (cursor.col as isize) + delta_col)
}

/// The position at the start of absolute row `row`, clamped to the text.
pub open spec fn spec_line_start(v: RendererView, row: u64) -> SelectionPosition {
    spec_clamp_position(v, (row as i64) as int, 0)
}

/// The position at the last character of absolute row `row` (column 0 on
/// an empty row), clamped to the text.
pub open spec fn spec_line_end(v: RendererView, row: u64) -> SelectionPosition {
    let w = spec_row_display_width(v, row as int);
    spec_clamp_position(v, (row as i64) as int, ((if w == 0 {
        0
    } else {
        w - 1
    }) as isize) as int)
}

/// The position at the start of the first row held.
pub open spec fn spec_top(v: RendererView) -> SelectionPosition {
    spec_clamp_position(v, (v.base_row as i64) as int, 0)
}

/// The position at the start of the last row held.
pub open spec fn spec_bottom(v: RendererView) -> SelectionPosition {
    let total = v.base_row + v.rows.len();
    spec_clamp_position(v, ((if total == 0 {
        0
    } else {
        total - 1
    }) as u64 as i64) as int, 0)
}

/// Whether a move by (`delta_row`, `delta_col`) from `cursor` stays within
/// the integer types the move is computed in.
pub open spec fn move_in_range(cursor: SelectionPosition, delta_row: isize, delta_col: isize) -> bool {
    &&& i64::MIN <= (cursor.row as i64) + delta_row <= i64::MAX
    &&& isize::MIN <= (cursor.col as isize) + delta_col <= isize::MAX
}

/// Moves the copy cursor by (`delta_row`, `delta_col`), clamped to the
/// text, scrolling it into view.
pub fn move_copy_cursor(renderer: &mut GridRenderer, state: &mut CopyModeState, delta_row: isize, delta_col: isize)
    requires
        old(renderer).wf(),
        old(renderer)@.cols <= isize::MAX,
        move_in_range(old(state).cursor, delta_row, delta_col),
    ensures
        final(renderer).wf(),
        ({
            let target = spec_move_target(old(renderer)@, old(state).cursor, delta_row, delta_col);
            &&& *final(state) == spec_with_cursor(*old(state), target)
            &&& final(renderer)@ == spec_after_cursor_move(old(renderer)@, *old(state), target, true)
        }),
{
    let row = state.cursor.row as i64;
    let col = state.cursor.col as isize;
    let target = renderer.clamp_position(row + delta_row as i64, col + delta_col);
    set_copy_cursor_position(renderer, state, target, true);
}

/// Moves the copy cursor to the start of its row.
pub fn move_copy_cursor_line_start(renderer: &mut GridRenderer, state: &mut CopyModeState)
    requires
        old(renderer).wf(),
        old(renderer)@.cols <= isize::MAX,
    ensures
        final(renderer).wf(),
        ({
            let target = spec_line_start(old(renderer)@, old(state).cursor.row);
            &&& *final(state) == spec_with_cursor(*old(state), target)
            &&& final(renderer)@ == spec_after_cursor_move(old(renderer)@, *old(state), target, true)
        }),
{
    let target = renderer.clamp_position(state.cursor.row as i64, 0);
    set_copy_cursor_position(renderer, state, target, true);
}

/// Moves the copy cursor to the last character of its row.
pub fn move_copy_cursor_line_end(renderer: &mut GridRenderer, state: &mut CopyModeState)
    requires
        old(renderer).wf(),
        old(renderer)@.cols <= isize::MAX,
    ensures
        final(renderer).wf(),
        ({
            let target = spec_line_end(old(renderer)@, old(state).cursor.row);
            &&& *final(state) == spec_with_cursor(*old(state), target)
            &&& final(renderer)@ == spec_after_cursor_move(old(renderer)@, *old(state), target, true)
        }),
{
    let row = state.cursor.row;
    let width = renderer.row_display_width(row);
    let target_col: usize = if width == 0 {
        0
    } else {
        width - 1
    };
    let target = renderer.clamp_position(row as i64, target_col as isize);
    set_copy_cursor_position(renderer, state, target, true);
}

/// Moves the copy cursor to the start of the first row held.
pub fn jump_copy_cursor_to_top(renderer: &mut GridRenderer, state: &mut CopyModeState)
    requires
        old(renderer).wf(),
        old(renderer)@.cols <= isize::MAX,
    ensures
        final(renderer).wf(),
        ({
            let target = spec_top(old(renderer)@);
            &&& *final(state) == spec_with_cursor(*old(state), target)
            &&& final(renderer)@ == spec_after_cursor_move(old(renderer)@, *old(state), target, true)
        }),
{
    let top = renderer.base_row();
    let target = renderer.clamp_position(top as i64, 0);
    set_copy_cursor_position(renderer, state, target, true);
}

/// Moves the copy cursor to the start of the last row held.
pub fn jump_copy_cursor_to_bottom(renderer: &mut GridRenderer, state: &mut CopyModeState)
    requires
        old(renderer).wf(),
        old(renderer)@.cols <= isize::MAX,
    ensures
        final(renderer).wf(),
        ({
            let target = spec_bottom(old(renderer)@);
            &&& *final(state) == spec_with_cursor(*old(state), target)
            &&& final(renderer)@ == spec_after_cursor_move(old(renderer)@, *old(state), target, true)
        }),
{
    let total = renderer.total_rows();
    let last: u64 = if total == 0 {
        0
    } else {
        total - 1
    };
    let target = renderer.clamp_position(last as i64, 0);
    set_copy_cursor_position(renderer, state, target, true);
}

/// Where a word motion from `cursor` stops, if anywhere.
pub open spec fn spec_word_target(v: RendererView, cursor: SelectionPosition, motion: WordMotion) -> Option<
    SelectionPosition,
> {
    match motion {
        WordMotion::NextStart => spec_find_word_forward(v, cursor, ForwardWordKind::Start),
        WordMotion::NextEnd => spec_find_word_forward(v, cursor, ForwardWordKind::End),
        WordMotion::PrevStart => spec_find_word_backward(v, cursor),
    }
}

/// Moves the copy cursor by a word motion; nothing changes when there is
/// no word to move to.
pub fn move_copy_cursor_word(renderer: &mut GridRenderer, state: &mut CopyModeState, motion: WordMotion)
    requires
        old(renderer).wf(),
    ensures
        final(renderer).wf(),
        match spec_word_target(old(renderer)@, old(state).cursor, motion) {
            Some(target) => *final(state) == spec_with_cursor(*old(state), target) && final(renderer)@
                == spec_after_cursor_move(old(renderer)@, *old(state), target, true),
            None => *final(state) == *old(state) && final(renderer)@ == old(renderer)@,
        },
{
    let start = state.cursor;
    let target = match motion {
        WordMotion::NextStart => find_word_forward(renderer, start, ForwardWordKind::Start),
        WordMotion::NextEnd => find_word_forward(renderer, start, ForwardWordKind::End),
        WordMotion::PrevStart => find_word_backward(renderer, start),
    };
    if let Some(position) = target {
        set_copy_cursor_position(renderer, state, position, true);
    }
}

/// Copy-mode state after a selection command: begin a character
/// selection at the cursor; clear it (back to character mode); toggle it;
/// set the selection mode (toggling back to character mode when already in
/// it, starting a selection at the cursor when none is active); or switch
/// key sets. Other commands leave the state as it is.
pub open spec fn spec_apply_selection_command(state: CopyModeState, command: CopyModeCommand) -> CopyModeState {
    match command {
        CopyModeCommand::BeginSelection => CopyModeState {
            selection_active: true,
            selection_mode: SelectionMode::Character,
            anchor: state.cursor,
            ..state
        },
        CopyModeCommand::ClearSelection => CopyModeState {
            selection_active: false,
            selection_mode: SelectionMode::Character,
            ..state
        },
        CopyModeCommand::ToggleSelection => if state.selection_active {
            CopyModeState { selection_active: false, ..state }
        } else {
            CopyModeState {
                selection_active: true,
                selection_mode: SelectionMode::Character,
                anchor: state.cursor,
                ..state
            }
        },
        CopyModeCommand::SetSelectionMode(m) => if state.selection_active {
            CopyModeState {
                selection_mode: if state.selection_mode == m {
                    SelectionMode::Character
                } else {
                    m
                },
                ..state
            }
        } else {
            CopyModeState { selection_mode: m, selection_active: true, anchor: state.cursor, ..state }
        },
        CopyModeCommand::SetMode(mode) => CopyModeState { mode, ..state },
        _ => state,
    }
}

/// Applies a selection command to copy-mode state (see
/// `spec_apply_selection_command`).
pub fn apply_selection_command(state: &mut CopyModeState, command: CopyModeCommand)
    ensures
        *final(state) == spec_apply_selection_command(*old(state), command),
{
    match command {
        CopyModeCommand::BeginSelection => {
            state.begin_selection(SelectionMode::Character);
        },
        CopyModeCommand::ClearSelection => {
            state.clear_selection();
            state.selection_mode = SelectionMode::Character;
        },
        CopyModeCommand::ToggleSelection => {
            state.toggle_selection();
        },
        CopyModeCommand::SetSelectionMode(m) => {
            if state.selection_active {
                if state.selection_mode == m {
                    state.selection_mode = SelectionMode::Character;
                } else {
                    state.selection_mode = m;
                }
            } else {
                state.selection_mode = m;
                state.selection_active = true;
                state.anchor = state.cursor;
            }
        },
        CopyModeCommand::SetMode(mode) => {
            state.mode = mode;
        },
        _ => {},
    }
}


/// The status line prompt while a search pattern is typed: `/` (forward)
/// or `?` (backward) and the pattern so far.
pub open spec fn spec_search_prompt(direction: CopyModeSearchDirection, buffer: Seq<char>) -> Seq<char> {
    seq![
        match direction {
            CopyModeSearchDirection::Forward => '/',
            CopyModeSearchDirection::Backward => '?',
        },
    ] + buffer
}

/// The status line prompt while a search pattern is typed (see
/// `spec_search_prompt`).
pub fn search_prompt(direction: CopyModeSearchDirection, buffer: &str) -> (res: String)
    ensures
        res@ == spec_search_prompt(direction, buffer@),
{
    let mut chars: Vec<char> = Vec::new();
    chars.push(
        match direction {
            CopyModeSearchDirection::Forward => '/',
            CopyModeSearchDirection::Backward => '?',
        },
    );
    let rest = str_chars(buffer);
    let mut i: usize = 0;
    while i < rest.len()
        invariant
            i <= rest@.len(),
            chars@ == spec_search_prompt(direction, rest@.take(i as int)),
        decreases rest@.len() - i,
    {
        chars.push(rest[i]);
        proof {
            assert(rest@.take(i + 1) =~= rest@.take(i as int).push(rest@[i as int]));
            assert(chars@ =~= spec_search_prompt(direction, rest@.take(i + 1)));
        }
        i = i + 1;
    }
    proof {
        assert(rest@.take(rest@.len() as int) =~= rest@);
    }
    string_from_chars(chars)
}

/// The status message when a search finds nothing.
pub open spec fn spec_not_found_message(pattern: Seq<char>) -> Seq<char> {
    "copy-mode: \""@ + pattern + "\" not found"@
}

/// The status message when a search finds nothing.
pub fn search_not_found_message(pattern: &str) -> (res: String)
    ensures
        res@ == spec_not_found_message(pattern@),
{
    let mut msg = String::from_str("copy-mode: \"");
    msg.append(pattern);
    msg.append("\" not found");
    msg
}

/// The highlighted part of the status line in copy mode.
pub open spec fn spec_copy_mode_highlight(selection_active: bool) -> Seq<char> {
    "ESC exit"@ + (if selection_active {
        " • CTRL+C copy"@
    } else {
        ""@
    }) + " • CTRL+Q quit"@
}

/// The highlighted part of the status line in copy mode.
pub fn copy_mode_highlight(selection_active: bool) -> (res: String)
    ensures
        res@ == spec_copy_mode_highlight(selection_active),
{
    let mut text = String::from_str("ESC exit");
    let ghost first = text@;
    if selection_active {
        text.append(" • CTRL+C copy");
    }
    let ghost second = text@;
    text.append(" • CTRL+Q quit");
    proof {
        reveal_strlit("");
        assert(second =~= first + (if selection_active { " • CTRL+C copy"@ } else { ""@ }));
    }
    text
}

/// The direction a repeated search goes: the last search's direction, or
/// the opposite one when repeating backwards.
pub open spec fn spec_repeat_direction(last: CopyModeSearchDirection, hint: CopyModeSearchDirection)
    -> CopyModeSearchDirection {
    match hint {
        CopyModeSearchDirection::Forward => last,
        CopyModeSearchDirection::Backward => spec_reverse_direction(last),
    }
}

/// The direction a repeated search goes (see `spec_repeat_direction`).
pub fn repeat_direction(last: CopyModeSearchDirection, hint: CopyModeSearchDirection) -> (res:
    CopyModeSearchDirection)
    ensures
        res == spec_repeat_direction(last, hint),
{
    match hint {
        CopyModeSearchDirection::Forward => last,
        CopyModeSearchDirection::Backward => super::reverse_search_direction(last),
    }
}

/// Starts typing a search pattern in `direction`.
pub fn start_search(state: &mut CopyModeState, direction: CopyModeSearchDirection)
    ensures
        *final(state) == (CopyModeState {
            pending_input: Some(CopyModePendingInput::Search { direction, buffer: final(state).pending_input->0->buffer }),
            ..*old(state)
        }),
        final(state).pending_input->0->buffer@ == Seq::<char>::empty(),
{
    let buffer = String::from_str("");
    proof {
        reveal_strlit("");
    }
    state.pending_input = Some(CopyModePendingInput::Search { direction, buffer });
}

/// What a key did to a search pattern being typed.
#[derive(Debug, Clone)]
pub enum PendingSearchOutcome {
    /// No pattern is being typed; the key was not used.
    NotPending,
    /// Escape dropped the pattern.
    Cancelled,
    /// Enter ended the pattern: search for it in this direction.
    Submitted { direction: CopyModeSearchDirection, pattern: String },
    /// The pattern changed (a character added, or one removed).
    Edited,
    /// The key means nothing to the pattern and was not used.
    Ignored,
}

/// A key while a search pattern is typed: Escape drops it, Enter submits
/// it, Backspace removes its last character, a character typed without
/// Control or Alt is added; the pattern is kept as it was for other keys.
pub fn handle_pending_search_key(state: &mut CopyModeState, key: &KeyEvent) -> (res: PendingSearchOutcome)
    ensures
        match old(state).pending_input {
            None => res is NotPending && *final(state) == *old(state),
            Some(CopyModePendingInput::Search { direction, buffer }) => match key.code {
                KeyCode::Esc => res is Cancelled && *final(state) == (CopyModeState {
                    pending_input: None,
                    ..*old(state)
                }),
                KeyCode::Enter => (res matches PendingSearchOutcome::Submitted { direction: d, pattern } && d
                    == direction && pattern@ == buffer@) && *final(state) == (CopyModeState {
                    pending_input: None,
                    ..*old(state)
                }),
                KeyCode::Backspace => res is Edited && (final(state).pending_input matches Some(
                    CopyModePendingInput::Search { direction: d, buffer: b },
                ) && d == direction && b@ == (if buffer@.len() > 0 {
                    buffer@.drop_last()
                } else {
                    buffer@
                })) && *final(state) == (CopyModeState { pending_input: final(state).pending_input, ..*old(state) }),
                KeyCode::Char(c) => if !key.modifiers.control && !key.modifiers.alt {
                    res is Edited && (final(state).pending_input matches Some(
                        CopyModePendingInput::Search { direction: d, buffer: b },
                    ) && d == direction && b@ == buffer@.push(c)) && *final(state) == (CopyModeState {
                        pending_input: final(state).pending_input,
                        ..*old(state)
                    })
                } else {
                    res is Ignored && *final(state) == *old(state)
                },
                _ => res is Ignored && *final(state) == *old(state),
            },
        },
{
    let (direction, buffer) = match &state.pending_input {
        None => return PendingSearchOutcome::NotPending,
        Some(CopyModePendingInput::Search { direction, buffer }) => (*direction, buffer.clone()),
    };
    match key.code {
        KeyCode::Esc => {
            state.pending_input = None;
            PendingSearchOutcome::Cancelled
        },
        KeyCode::Enter => {
            state.pending_input = None;
            PendingSearchOutcome::Submitted { direction, pattern: buffer }
        },
        KeyCode::Backspace => {
            let mut chars = str_chars(buffer.as_str());
            if chars.len() > 0 {
                chars.pop();
            }
            let edited = string_from_chars(chars);
            state.pending_input = Some(CopyModePendingInput::Search { direction, buffer: edited });
            PendingSearchOutcome::Edited
        },
        KeyCode::Char(c) => {
            if !key.modifiers.control && !key.modifiers.alt {
                let mut chars = str_chars(buffer.as_str());
                chars.push(c);
                let edited = string_from_chars(chars);
                state.pending_input = Some(CopyModePendingInput::Search { direction, buffer: edited });
                PendingSearchOutcome::Edited
            } else {
                PendingSearchOutcome::Ignored
            }
        },
        _ => PendingSearchOutcome::Ignored,
    }
}

/// Copy-mode motions land on rows held: a clamped position lies on one of
/// the rows, whatever it aimed at.
pub proof fn law_clamped_position_is_held(v: RendererView, row: int, col: int)
    requires
        v.rows.len() > 0,
        v.base_row + v.rows.len() <= i64::MAX,
    ensures
        v.base_row <= spec_clamp_position(v, row, col).row < v.base_row + v.rows.len(),
        rel_index(v, spec_clamp_position(v, row, col).row as int) is Some,
{
}

} // verus!

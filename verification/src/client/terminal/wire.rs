//! Applying the host's grid updates to the client: the renderer takes the
//! cells, predictions the host overwrote are dropped, the history
//! bookkeeping learns which rows arrived, and, while the host does not own
//! the cursor, a cursor position is inferred from the row written.
//!
//! The step is split where the prediction overlay (which works on measured
//! round-trip times) runs: `apply_wire_update` applies the update and
//! reports whether predictions were dropped and which cursor position it
//! infers; the caller refreshes the overlay when asked and then hands the
//! inferred position to `apply_cursor_hint`.

use vstd::prelude::*;

use super::backfill::{spec_clear_empty, spec_note_loaded, viewport_rows, Backfill, BackfillView};
use super::pending::{
    any_touches, entries_outside, lemma_outside_untouched, spec_row_has_predictions, touches_region, CellRegion, PendingPredictions,
    PendingView,
};
use super::scrollback::{spec_sync_view_mode, ClientView};
use super::{decode_wire_cell, spec_decode_wire_cell};
use crate::client::grid_renderer::predictions::spec_predicted_row_width;
use crate::client::grid_renderer::laws::law_apply_cell_then_render;
use crate::client::grid_renderer::text::{spec_cell_for_render, spec_effective_row_width, spec_logical_row_width, spec_row_display_width};
use crate::client::grid_renderer::{
    max_nat, renderer_wf, spec_set_base_row, row_or_blank, spec_clear_prediction, spec_ensure_cols, spec_touch, spec_apply_cell, spec_apply_row, spec_apply_segment, spec_apply_trim, spec_rect_rows,
    spec_scroll_to_tail, GridCursor, GridRenderer, RendererView,
};
use crate::cache::terminal::packed::Style;

verus! {

/// A grid update from the host. Cells travel packed (character in the upper
/// 32 bits, style id in the lower).
#[derive(Clone, Debug)]
pub enum WireUpdate {
    /// One cell.
    Cell { row: u32, col: u32, seq: u64, cell: u64 },
    /// A whole row from column 0.
    Row { row: u32, seq: u64, cells: Vec<u64> },
    /// Rows `row_start..row_end` by columns `col_start..col_end`, all one
    /// cell.
    Rect { row_start: u32, row_end: u32, col_start: u32, col_end: u32, seq: u64, cell: u64 },
    /// Cells of one row from `start_col` on.
    RowSegment { row: u32, start_col: u32, seq: u64, cells: Vec<u64> },
    /// The host dropped `count` rows from `start`.
    Trim { start: u32, count: u32 },
    /// Style `id` is now this.
    Style { id: u32, seq: u64, fg: u32, bg: u32, attrs: u8 },
}

/// Where the client's cursor is and who owns it.
#[derive(Clone, Copy, Debug, PartialEq, Eq, Structural)]
pub struct CursorState {
    /// The cursor shown.
    pub row: usize,
    pub col: usize,
    /// The cursor the host's updates put it at.
    pub server_row: usize,
    pub server_col: usize,
    /// The host sends cursor positions, or is about to.
    pub authoritative: bool,
    pub authoritative_pending: bool,
    /// The host reports cursor visibility, and what it reported.
    pub support: bool,
    pub visible: bool,
}

/// The client state a grid update touches.
pub struct ClientState {
    pub renderer: GridRenderer,
    pub pending: PendingPredictions,
    pub backfill: Backfill,
    pub view: ClientView,
    pub cursor: CursorState,
    /// Whether typed input is predicted.
    pub predictive_input: bool,
    /// The newest sequence number of a style update.
    pub last_seq: u64,
}

/// The content of a `ClientState`.
pub struct ClientStateView {
    pub renderer: RendererView,
    pub pending: Seq<(u64, PendingView)>,
    pub backfill: BackfillView,
    pub view: ClientView,
    pub cursor: CursorState,
    pub predictive_input: bool,
    pub last_seq: u64,
}

impl View for ClientState {
    type V = ClientStateView;

    open spec fn view(&self) -> ClientStateView {
        ClientStateView {
            renderer: self.renderer@,
            pending: self.pending@,
            backfill: self.backfill@,
            view: self.view,
            cursor: self.cursor,
            predictive_input: self.predictive_input,
            last_seq: self.last_seq,
        }
    }
}

/// What an update asks of the caller: refresh the prediction overlay when
/// predictions were dropped, then apply the inferred cursor position.
#[derive(Clone, Copy, Debug)]
pub struct WireEffect {
    pub predictions_changed: bool,
    pub cursor_hint: Option<(usize, usize)>,
}

/// Whether every coordinate of `u` fits the machine's `usize` with room to
/// spare (always so where `usize` has 64 bits).
pub open spec fn wire_update_fits(u: WireUpdate) -> bool {
    match u {
        WireUpdate::Cell { row, col, .. } => row < usize::MAX && col < usize::MAX,
        WireUpdate::Row { row, cells, .. } => row < usize::MAX && cells@.len() < usize::MAX,
        WireUpdate::Rect { row_end, col_end, .. } => row_end <= usize::MAX && col_end < usize::MAX,
        WireUpdate::RowSegment { row, start_col, cells, .. } => row < usize::MAX && start_col + cells@.len()
            < usize::MAX,
        WireUpdate::Trim { start, count } => start + count <= usize::MAX,
        WireUpdate::Style { .. } => true,
    }
}

/// Whether typed input is being predicted now: predictive echo is on and
/// predictions wait or show.
pub open spec fn predictions_active(s: ClientStateView) -> bool {
    s.predictive_input && (s.pending.len() > 0 || !s.renderer.predictions.is_empty())
}

/// The host put the cursor at (`row`, `col`); it is shown there unless
/// predictions are active.
pub open spec fn spec_update_server_cursor(s: ClientStateView, row: usize, col: usize) -> ClientStateView {
    let c = CursorState { server_row: row, server_col: col, ..s.cursor };
    ClientStateView {
        cursor: if predictions_active(s) {
            c
        } else {
            CursorState { row, col, ..c }
        },
        ..s
    }
}

/// Whether the cursor is drawn: as the host said while it owns the cursor
/// and reports visibility, else always.
pub open spec fn cursor_shown(c: CursorState) -> bool {
    if c.support && (c.authoritative || c.authoritative_pending) {
        c.visible
    } else {
        true
    }
}

/// The cursor handed to the renderer. Before the host's first cursor the
/// cursor goes to the origin while no row has loaded, else it is kept
/// inside the viewport and within the row's width (or the grid's); after
/// it, the tail is followed again. Then the renderer draws the cursor.
pub open spec fn spec_sync_cursor(s: ClientStateView, now: u64) -> ClientStateView {
    let s1 = spec_cursor_before_draw(s, now);
    ClientStateView {
        renderer: RendererView {
            cursor: Some(GridCursor { absolute_row: s1.cursor.row as u64, col: s1.cursor.col, visible: cursor_shown(s1.cursor) }),
            needs_redraw: true,
            ..s1.renderer
        },
        ..s1
    }
}

/// The cursor kept in place before the host's first cursor (see
/// `spec_sync_cursor`).
pub open spec fn spec_clamp_cursor(s: ClientStateView) -> ClientStateView {
    if !s.backfill.has_loaded_rows {
        ClientStateView { cursor: CursorState { row: 0, col: 0, ..s.cursor }, ..s }
    } else {
        let vr = viewport_rows(s.renderer);
        let row: usize = if s.cursor.row >= vr {
            (vr - 1) as usize
        } else {
            s.cursor.row
        };
        let w = max_nat(spec_effective_row_width(s.renderer, row as u64), s.renderer.cols);
        let col: usize = if s.cursor.col > w {
            w as usize
        } else {
            s.cursor.col
        };
        ClientStateView { cursor: CursorState { row, col, ..s.cursor }, ..s }
    }
}

/// The state before the cursor is drawn (see `spec_sync_cursor`).
pub open spec fn spec_cursor_before_draw(s: ClientStateView, now: u64) -> ClientStateView {
    if s.backfill.cursor_seq == 0 {
        spec_clamp_cursor(s)
    } else if !s.renderer.follow_tail {
        let (c2, v2) = spec_sync_view_mode(s.view, spec_scroll_to_tail(RendererView { follow_tail: true, ..s.renderer }), now);
        ClientStateView { renderer: v2, view: c2, ..s }
    } else {
        s
    }
}

/// The history bookkeeping after rows `lo..hi` loaded, one by one.
pub open spec fn spec_note_rows(b: BackfillView, lo: u64, hi: u64) -> BackfillView
    decreases hi - lo,
{
    if lo < hi {
        spec_note_rows(spec_note_loaded(b, lo), (lo + 1) as u64, hi)
    } else {
        b
    }
}

/// After the renderer took cells in region `r` (rows `lo..hi`): the
/// predictions touching `r` are dropped (a redraw asked and the cursor
/// handed over again when there were any), the rows are noted as loaded and
/// their empty-answer records cleared. Whether predictions were dropped
/// comes with the state.
pub open spec fn spec_cells_written(s: ClientStateView, r: CellRegion, lo: u64, hi: u64, now: u64) -> (
    ClientStateView,
    bool,
) {
    let dropped = any_touches(s.pending, r);
    let s1 = ClientStateView { pending: entries_outside(s.pending, r), ..s };
    let s2 = if dropped {
        spec_sync_cursor(ClientStateView { view: ClientView { force_render: true, ..s1.view }, ..s1 }, now)
    } else {
        s1
    };
    (ClientStateView { backfill: spec_clear_empty(spec_note_rows(s2.backfill, lo, hi), lo, hi), ..s2 }, dropped)
}

/// A cursor position inferred for row `row`, unless the host owns the
/// cursor.
pub open spec fn hint_if_free(s: ClientStateView, row: usize, width: nat) -> Option<(usize, usize)> {
    if !s.cursor.authoritative && !s.cursor.authoritative_pending {
        Some((row, width as usize))
    } else {
        None
    }
}

/// The state noting that rows have loaded.
pub open spec fn rows_loaded(s: ClientStateView) -> ClientStateView {
    ClientStateView { backfill: BackfillView { has_loaded_rows: true, ..s.backfill }, ..s }
}

/// The cells of one row region from column `col` on, up to `stop`.
pub open spec fn row_region(row: u32, col: u64, stop: Option<u64>) -> CellRegion {
    CellRegion { row_start: row as u64, row_end: (row + 1) as u64, col_start: col, col_stop: stop }
}

/// The segment cells a row-segment update writes.
pub open spec fn segment_cells(start_col: u32, seq: u64, cells: Seq<u64>) -> Seq<(usize, u64, char, Option<u32>)> {
    Seq::new(
        cells.len(),
        |i: int|
            (
                (start_col + i) as usize,
                seq,
                spec_decode_wire_cell(cells[i]).0,
                spec_decode_wire_cell(cells[i]).1,
            ),
    )
}

/// The renderer after filling rows `r0..r1` by columns `c0..c1`.
pub open spec fn rect_view(v: RendererView, r0: int, r1: int, c0: int, c1: int, seq: u64, cell: u64) -> RendererView {
    RendererView {
        needs_redraw: true,
        ..spec_rect_rows(
            v,
            r0,
            if r1 >= r0 {
                r1 - r0
            } else {
                0
            },
            c0,
            c1,
            seq,
            spec_decode_wire_cell(cell).0,
            spec_decode_wire_cell(cell).1,
        )
    }
}

/// The larger of two numbers.
pub open spec fn max_u64(a: u64, b: u64) -> u64 {
    if a >= b {
        a
    } else {
        b
    }
}

/// The first part of a trim: the renderer drops the rows, and every
/// prediction is dropped (a redraw asked and the cursor handed over again)
/// when there were any; whether there were comes with the state.
pub open spec fn spec_trim_rows(s: ClientStateView, start: u32, count: u32, now: u64) -> (ClientStateView, bool) {
    let s0 = ClientStateView { renderer: spec_apply_trim(s.renderer, start as int, count as int), ..s };
    let changed = s0.pending.len() > 0;
    (
        if changed {
            spec_sync_cursor(
                ClientStateView { pending: Seq::empty(), view: ClientView { force_render: true, ..s0.view }, ..s0 },
                now,
            )
        } else {
            s0
        },
        changed,
    )
}

/// The rest of a trim: the first row held moves up to the end of the trim,
/// the highest loaded row is forgotten when trimmed, a cursor in the
/// trimmed rows moves to the row after them at column 0, the host's cursor
/// is set there and a redraw is asked.
pub open spec fn spec_after_trim(s1: ClientStateView, start: u32, count: u32) -> ClientStateView {
    let s2 = ClientStateView { backfill: spec_trim_bookkeeping(s1.backfill, (start + count) as u64), ..s1 };
    let c = s2.cursor;
    let s3 = if start <= c.row < start + count {
        ClientStateView { cursor: CursorState { row: (start + count) as usize, col: 0, ..c }, ..s2 }
    } else {
        s2
    };
    let s4 = spec_update_server_cursor(s3, s3.cursor.row, s3.cursor.col);
    ClientStateView { view: ClientView { force_render: true, ..s4.view }, ..s4 }
}

/// The history bookkeeping after rows up to `origin` were trimmed: the
/// first row held moves up to `origin`, the highest loaded row is forgotten
/// when below it.
pub open spec fn spec_trim_bookkeeping(b: BackfillView, origin: u64) -> BackfillView {
    let base = match b.known_base_row {
        Some(k) => if k < origin {
            Some(origin)
        } else {
            Some(k)
        },
        None => Some(origin),
    };
    let highest = match b.highest_loaded_row {
        Some(h) => if h < origin {
            None
        } else {
            Some(h)
        },
        None => None,
    };
    BackfillView { known_base_row: base, highest_loaded_row: highest, ..b }
}

/// An update applied, and what it asks of the caller.
/// - Cell, row, rectangle and (non-empty) segment updates: the renderer
///   takes the cells, predictions on the cells written are dropped, the rows
///   are noted as loaded, and while the host does not own the cursor a
///   position on the (last) row written is inferred: one past the written
///   column for a cell, the row's width otherwise. These updates mark rows
///   as loaded (an empty segment too).
/// - Trim: the renderer drops the rows; every prediction is dropped (the
///   cursor handed over again); the first row held moves up to the end of
///   the trim, the highest loaded row is forgotten when trimmed; a cursor in
///   the trimmed rows moves to the row after them, column 0; the host's
///   cursor is set there; a redraw is asked.
/// - Style: the renderer records it; the newest style sequence is kept.
pub open spec fn spec_apply_wire_update(s: ClientStateView, u: WireUpdate, now: u64) -> (ClientStateView, WireEffect) {
    match u {
        WireUpdate::Cell { row, col, seq, cell } => {
            let d = spec_decode_wire_cell(cell);
            let s0 = ClientStateView {
                renderer: spec_apply_cell(s.renderer, row as int, col as int, seq, d.0, d.1),
                ..s
            };
            let (s1, dropped) = spec_cells_written(
                s0,
                row_region(row, col as u64, Some((col + 1) as u64)),
                row as u64,
                (row + 1) as u64,
                now,
            );
            let w = max_nat(spec_effective_row_width(s1.renderer, row as u64), (col + 1) as nat);
            (rows_loaded(s1), WireEffect { predictions_changed: dropped, cursor_hint: hint_if_free(s1, row as usize, w) })
        },
        WireUpdate::Row { row, seq, cells } => {
            let s0 = ClientStateView {
                renderer: spec_apply_row(s.renderer, row as int, seq, cells@.map_values(|c: u64| spec_decode_wire_cell(c))),
                ..s
            };
            let (s1, dropped) = spec_cells_written(s0, row_region(row, 0, None), row as u64, (row + 1) as u64, now);
            let w = spec_effective_row_width(s1.renderer, row as u64);
            (rows_loaded(s1), WireEffect { predictions_changed: dropped, cursor_hint: hint_if_free(s1, row as usize, w) })
        },
        WireUpdate::Rect { row_start, row_end, col_start, col_end, seq, cell } => {
            let s0 = ClientStateView {
                renderer: rect_view(s.renderer, row_start as int, row_end as int, col_start as int, col_end as int, seq, cell),
                ..s
            };
            let region = CellRegion {
                row_start: row_start as u64,
                row_end: row_end as u64,
                col_start: col_start as u64,
                col_stop: Some(col_end as u64),
            };
            let (s1, dropped) = spec_cells_written(s0, region, row_start as u64, row_end as u64, now);
            let last: usize = if row_end >= 1 {
                (row_end - 1) as usize
            } else {
                0
            };
            let w = spec_effective_row_width(s1.renderer, last as u64);
            (rows_loaded(s1), WireEffect { predictions_changed: dropped, cursor_hint: hint_if_free(s1, last, w) })
        },
        WireUpdate::RowSegment { row, start_col, seq, cells } => {
            if cells@.len() == 0 {
                (rows_loaded(s), WireEffect { predictions_changed: false, cursor_hint: None })
            } else {
                let s0 = ClientStateView {
                    renderer: spec_apply_segment(s.renderer, row as int, segment_cells(start_col, seq, cells@)),
                    ..s
                };
                let region = row_region(row, start_col as u64, Some((start_col + cells@.len()) as u64));
                let (s1, dropped) = spec_cells_written(s0, region, row as u64, (row + 1) as u64, now);
                let w = spec_effective_row_width(s1.renderer, row as u64);
                (
                    rows_loaded(s1),
                    WireEffect { predictions_changed: dropped, cursor_hint: hint_if_free(s1, row as usize, w) },
                )
            }
        },
        WireUpdate::Trim { start, count } => {
            let (s1, changed) = spec_trim_rows(s, start, count, now);
            (spec_after_trim(s1, start, count), WireEffect { predictions_changed: changed, cursor_hint: None })
        },
        WireUpdate::Style { id, seq, fg, bg, attrs } => (
            ClientStateView {
                renderer: RendererView {
                    styles: s.renderer.styles.insert(id, Style { fg, bg, attrs }),
                    needs_redraw: true,
                    ..s.renderer
                },
                last_seq: max_u64(s.last_seq, seq),
                ..s
            },
            WireEffect { predictions_changed: false, cursor_hint: None },
        ),
    }
}

/// An inferred cursor position applied: on a row with predictions the
/// column is pushed out to the predicted width (and to the current cursor
/// column on the cursor's row), then kept within the grid's width; the
/// host's cursor is set there.
pub open spec fn spec_apply_cursor_hint(s: ClientStateView, row: usize, col: usize) -> ClientStateView {
    let t1: nat = if spec_row_has_predictions(s.pending, s.renderer, row) {
        let predicted = spec_predicted_row_width(s.renderer.predictions, row as u64);
        let committed = max_nat(spec_logical_row_width(s.renderer, row as int), spec_row_display_width(s.renderer, row as int));
        let cap = if predicted <= max_nat(committed, predicted) {
            predicted
        } else {
            max_nat(committed, predicted)
        };
        let t = max_nat(col as nat, cap);
        if row == s.cursor.row {
            max_nat(t, s.cursor.col as nat)
        } else {
            t
        }
    } else {
        col as nat
    };
    let t2: nat = if s.renderer.cols > 0 && t1 > s.renderer.cols {
        s.renderer.cols
    } else {
        t1
    };
    spec_update_server_cursor(s, row, t2 as usize)
}

/// The first row an update writes, for the cell-writing updates.
pub open spec fn update_first_row(u: WireUpdate) -> Option<u64> {
    match u {
        WireUpdate::Cell { row, .. } => Some(row as u64),
        WireUpdate::Row { row, .. } => Some(row as u64),
        WireUpdate::RowSegment { row, .. } => Some(row as u64),
        WireUpdate::Rect { row_start, .. } => Some(row_start as u64),
        _ => None,
    }
}

/// The history bounds an update shows, before it is applied. From a
/// snapshot or a history answer (`authoritative`) the first row held is the
/// lowest row seen, and the renderer starts there; from a delta a row below
/// the renderer's first row moves it down.
pub open spec fn spec_observe_bounds(s: ClientStateView, u: WireUpdate, authoritative: bool) -> ClientStateView {
    match update_first_row(u) {
        Some(row) => if authoritative {
            let base = match s.backfill.known_base_row {
                Some(k) => if k <= row {
                    k
                } else {
                    row
                },
                None => row,
            };
            ClientStateView {
                backfill: BackfillView { known_base_row: Some(base), ..s.backfill },
                renderer: spec_set_base_row(s.renderer, base),
                ..s
            }
        } else if row < s.renderer.base_row {
            ClientStateView { renderer: spec_set_base_row(s.renderer, row), ..s }
        } else {
            s
        },
        None => s,
    }
}

/// From an authoritative update the renderer starts at the lowest row the
/// history holds, and no row seen lies below it.
pub proof fn law_authoritative_bounds(s: ClientStateView, u: WireUpdate)
    ensures
        update_first_row(u) matches Some(row) ==> {
            let after = spec_observe_bounds(s, u, true);
            &&& after.backfill.known_base_row matches Some(b) && b <= row
            &&& (s.backfill.known_base_row matches Some(k) ==> after.backfill.known_base_row->0 <= k)
            &&& after.renderer == spec_set_base_row(s.renderer, after.backfill.known_base_row->0)
        },
{
}

/// Whether two renderers draw the same cells: same rows, first row and
/// predictions.
pub open spec fn draws_same(a: RendererView, b: RendererView) -> bool {
    &&& a.rows == b.rows
    &&& a.base_row == b.base_row
    &&& a.cols == b.cols
    &&& a.predictions == b.predictions
    &&& a.predictions_visible == b.predictions_visible
}

proof fn lemma_sync_cursor_keeps(s: ClientStateView, now: u64)
    ensures
        draws_same(spec_sync_cursor(s, now).renderer, s.renderer),
        spec_sync_cursor(s, now).pending == s.pending,
        spec_sync_cursor(s, now).cursor.authoritative == s.cursor.authoritative,
        spec_sync_cursor(s, now).cursor.authoritative_pending == s.cursor.authoritative_pending,
{
}

proof fn lemma_cells_written_keeps(s: ClientStateView, r: CellRegion, lo: u64, hi: u64, now: u64)
    ensures
        draws_same(spec_cells_written(s, r, lo, hi, now).0.renderer, s.renderer),
        spec_cells_written(s, r, lo, hi, now).0.pending == entries_outside(s.pending, r),
        spec_cells_written(s, r, lo, hi, now).0.cursor.authoritative == s.cursor.authoritative,
        spec_cells_written(s, r, lo, hi, now).0.cursor.authoritative_pending == s.cursor.authoritative_pending,
{
    let s1 = ClientStateView { pending: entries_outside(s.pending, r), ..s };
    lemma_sync_cursor_keeps(ClientStateView { view: ClientView { force_render: true, ..s1.view }, ..s1 }, now);
}

/// The cells an update writes, if it writes any.
pub open spec fn written_region(u: WireUpdate) -> Option<CellRegion> {
    match u {
        WireUpdate::Cell { row, col, .. } => Some(row_region(row, col as u64, Some((col + 1) as u64))),
        WireUpdate::Row { row, .. } => Some(row_region(row, 0, None)),
        WireUpdate::Rect { row_start, row_end, col_start, col_end, .. } => Some(
            CellRegion {
                row_start: row_start as u64,
                row_end: row_end as u64,
                col_start: col_start as u64,
                col_stop: Some(col_end as u64),
            },
        ),
        WireUpdate::RowSegment { row, start_col, cells, .. } => if cells@.len() > 0 {
            Some(row_region(row, start_col as u64, Some((start_col + cells@.len()) as u64)))
        } else {
            None
        },
        _ => None,
    }
}

/// The host's cells win over predictions: after an update no prediction
/// waiting has a cell among those the update wrote, and after a trim none
/// waits at all.
pub proof fn law_overwritten_predictions_dropped(s: ClientStateView, u: WireUpdate, now: u64)
    ensures
        ({
            let after = spec_apply_wire_update(s, u, now).0;
            &&& (written_region(u) matches Some(r) ==> forall|i: int|
                0 <= i < after.pending.len() ==> !touches_region(#[trigger] after.pending[i].1, r))
            &&& (u is Trim && s.pending.len() > 0 ==> after.pending.len() == 0)
        }),
{
    match u {
        WireUpdate::Cell { row, col, seq, cell } => {
            let r = row_region(row, col as u64, Some((col + 1) as u64));
            let d = spec_decode_wire_cell(cell);
            let s0 = ClientStateView { renderer: spec_apply_cell(s.renderer, row as int, col as int, seq, d.0, d.1), ..s };
            lemma_cells_written_keeps(s0, r, row as u64, (row + 1) as u64, now);
            lemma_outside_untouched(s.pending, r);
        },
        WireUpdate::Row { row, seq, cells } => {
            let r = row_region(row, 0, None);
            let s0 = ClientStateView {
                renderer: spec_apply_row(s.renderer, row as int, seq, cells@.map_values(|c: u64| spec_decode_wire_cell(c))),
                ..s
            };
            lemma_cells_written_keeps(s0, r, row as u64, (row + 1) as u64, now);
            lemma_outside_untouched(s.pending, r);
        },
        WireUpdate::Rect { row_start, row_end, col_start, col_end, seq, cell } => {
            let r = CellRegion {
                row_start: row_start as u64,
                row_end: row_end as u64,
                col_start: col_start as u64,
                col_stop: Some(col_end as u64),
            };
            let s0 = ClientStateView {
                renderer: rect_view(s.renderer, row_start as int, row_end as int, col_start as int, col_end as int, seq, cell),
                ..s
            };
            lemma_cells_written_keeps(s0, r, row_start as u64, row_end as u64, now);
            lemma_outside_untouched(s.pending, r);
        },
        WireUpdate::RowSegment { row, start_col, seq, cells } => {
            if cells@.len() > 0 {
                let r = row_region(row, start_col as u64, Some((start_col + cells@.len()) as u64));
                let s0 = ClientStateView {
                    renderer: spec_apply_segment(s.renderer, row as int, segment_cells(start_col, seq, cells@)),
                    ..s
                };
                lemma_cells_written_keeps(s0, r, row as u64, (row + 1) as u64, now);
                lemma_outside_untouched(s.pending, r);
            }
        },
        WireUpdate::Trim { start, count } => {
            let s0 = ClientStateView { renderer: spec_apply_trim(s.renderer, start as int, count as int), ..s };
            if s0.pending.len() > 0 {
                lemma_sync_cursor_keeps(
                    ClientStateView { pending: Seq::empty(), view: ClientView { force_render: true, ..s0.view }, ..s0 },
                    now,
                );
            }
        },
        _ => {},
    }
}

/// A cursor position is inferred from an update only while the host owns
/// neither the cursor nor is about to.
pub proof fn law_hint_only_when_cursor_free(s: ClientStateView, u: WireUpdate, now: u64)
    ensures
        spec_apply_wire_update(s, u, now).1.cursor_hint is Some ==> !s.cursor.authoritative
            && !s.cursor.authoritative_pending,
{
    match u {
        WireUpdate::Cell { row, col, seq, cell } => {
            let d = spec_decode_wire_cell(cell);
            let s0 = ClientStateView { renderer: spec_apply_cell(s.renderer, row as int, col as int, seq, d.0, d.1), ..s };
            lemma_cells_written_keeps(s0, row_region(row, col as u64, Some((col + 1) as u64)), row as u64, (row + 1) as u64, now);
        },
        WireUpdate::Row { row, seq, cells } => {
            let s0 = ClientStateView {
                renderer: spec_apply_row(s.renderer, row as int, seq, cells@.map_values(|c: u64| spec_decode_wire_cell(c))),
                ..s
            };
            lemma_cells_written_keeps(s0, row_region(row, 0, None), row as u64, (row + 1) as u64, now);
        },
        WireUpdate::Rect { row_start, row_end, col_start, col_end, seq, cell } => {
            let r = CellRegion {
                row_start: row_start as u64,
                row_end: row_end as u64,
                col_start: col_start as u64,
                col_stop: Some(col_end as u64),
            };
            let s0 = ClientStateView {
                renderer: rect_view(s.renderer, row_start as int, row_end as int, col_start as int, col_end as int, seq, cell),
                ..s
            };
            lemma_cells_written_keeps(s0, r, row_start as u64, row_end as u64, now);
        },
        WireUpdate::RowSegment { row, start_col, seq, cells } => {
            if cells@.len() > 0 {
                let r = row_region(row, start_col as u64, Some((start_col + cells@.len()) as u64));
                let s0 = ClientStateView {
                    renderer: spec_apply_segment(s.renderer, row as int, segment_cells(start_col, seq, cells@)),
                    ..s
                };
                lemma_cells_written_keeps(s0, r, row as u64, (row + 1) as u64, now);
            }
        },
        _ => {},
    }
}

/// A cell from the host with a sequence number not older than the one the
/// cell holds replaces it: afterwards the cell is drawn with the host's
/// character and style, not as a prediction.
pub proof fn law_newer_cell_replaces(s: ClientStateView, row: u32, col: u32, seq: u64, cell: u64, now: u64)
    requires
        renderer_wf(s.renderer),
        row < usize::MAX,
        col < usize::MAX,
        ({
            let v1 = spec_clear_prediction(
                spec_ensure_cols(spec_touch(s.renderer, row as int), (col + 1) as nat),
                (row as u64, col as usize),
            );
            seq >= row_or_blank(v1.rows[row - v1.base_row], v1.cols).cells[col as int].seq
        }),
    ensures
        spec_cell_for_render(
            spec_apply_wire_update(s, WireUpdate::Cell { row, col, seq, cell }, now).0.renderer,
            row as int,
            col as int,
        ) == (spec_decode_wire_cell(cell).0, spec_decode_wire_cell(cell).1, false),
{
    let d = spec_decode_wire_cell(cell);
    law_apply_cell_then_render(s.renderer, row as int, col as int, seq, d.0, d.1);
    let s0 = ClientStateView { renderer: spec_apply_cell(s.renderer, row as int, col as int, seq, d.0, d.1), ..s };
    lemma_cells_written_keeps(s0, row_region(row, col as u64, Some((col + 1) as u64)), row as u64, (row + 1) as u64, now);
}

impl ClientState {
    /// The renderer and the predictions are well formed.
    pub open spec fn wf(&self) -> bool {
        &&& self.renderer.wf()
        &&& self.pending.wf()
    }

    /// Sets the host's cursor (see `spec_update_server_cursor`).
    fn update_server_cursor(&mut self, row: usize, col: usize)
        requires
            old(self).wf(),
        ensures
            final(self).wf(),
            final(self)@ == spec_update_server_cursor(old(self)@, row, col),
    {
        self.cursor.server_row = row;
        self.cursor.server_col = col;
        let active = self.predictive_input && (self.pending.len() > 0 || self.renderer.has_active_predictions());
        if !active {
            self.cursor.row = row;
            self.cursor.col = col;
        }
    }

    /// Keeps the cursor in place before the host's first cursor (see
    /// `spec_clamp_cursor`).
    fn clamp_cursor(&mut self)
        requires
            old(self).wf(),
        ensures
            final(self).wf(),
            final(self)@ == spec_clamp_cursor(old(self)@),
    {
        if !self.backfill.has_loaded_rows {
            self.cursor.row = 0;
            self.cursor.col = 0;
        } else {
            let vr = self.renderer.viewport_height();
            if self.cursor.row >= vr {
                self.cursor.row = vr - 1;
            }
            let effective = self.renderer.effective_row_width(self.cursor.row as u64);
            let total = self.renderer.total_cols();
            let w = if effective >= total {
                effective
            } else {
                total
            };
            if self.cursor.col > w {
                self.cursor.col = w;
            }
        }
    }

    /// The state before the cursor is drawn (see `spec_cursor_before_draw`).
    fn cursor_before_draw(&mut self, now: u64)
        requires
            old(self).wf(),
        ensures
            final(self).wf(),
            final(self)@ == spec_cursor_before_draw(old(self)@, now),
    {
        if self.backfill.cursor_seq == 0 {
            self.clamp_cursor();
        } else if !self.renderer.is_following_tail() {
            self.renderer.set_follow_tail(true);
            self.view.sync_view_mode_with_follow(&mut self.renderer, now);
        }
    }

    /// Hands the cursor to the renderer (see `spec_sync_cursor`).
    fn sync_cursor(&mut self, now: u64)
        requires
            old(self).wf(),
        ensures
            final(self).wf(),
            final(self)@ == spec_sync_cursor(old(self)@, now),
    {
        self.cursor_before_draw(now);
        let visible = if self.cursor.support && (self.cursor.authoritative || self.cursor.authoritative_pending) {
            self.cursor.visible
        } else {
            true
        };
        self.renderer.set_cursor(self.cursor.row as u64, self.cursor.col, visible);
    }

    /// The inferred position for row `row` of width `w`, unless the host
    /// owns the cursor.
    fn hint_for(&self, row: usize, w: usize) -> (res: Option<(usize, usize)>)
        ensures
            res == hint_if_free(self@, row, w as nat),
    {
        if !self.cursor.authoritative && !self.cursor.authoritative_pending {
            Some((row, w))
        } else {
            None
        }
    }

    fn cell_update(&mut self, row: u32, col: u32, seq: u64, cell: u64, now: u64) -> (res: WireEffect)
        requires
            old(self).wf(),
            wire_update_fits(WireUpdate::Cell { row, col, seq, cell }),
        ensures
            final(self).wf(),
            (final(self)@, res) == spec_apply_wire_update(old(self)@, WireUpdate::Cell { row, col, seq, cell }, now),
    {
        let (ch, style) = decode_wire_cell(cell);
        self.renderer.apply_cell(row as usize, col as usize, seq, ch, style);
        let region = CellRegion {
            row_start: row as u64,
            row_end: row as u64 + 1,
            col_start: col as u64,
            col_stop: Some(col as u64 + 1),
        };
        let dropped = self.cells_written(region, row as u64, row as u64 + 1, now);
        let effective = self.renderer.effective_row_width(row as u64);
        let next = col as usize + 1;
        let w = if effective >= next {
            effective
        } else {
            next
        };
        let hint = self.hint_for(row as usize, w);
        self.backfill.has_loaded_rows = true;
        WireEffect { predictions_changed: dropped, cursor_hint: hint }
    }

    fn row_update(&mut self, row: u32, seq: u64, cells: &Vec<u64>, now: u64) -> (res: WireEffect)
        requires
            old(self).wf(),
            row < usize::MAX,
            cells@.len() < usize::MAX,
        ensures
            final(self).wf(),
            (final(self)@, res) == spec_apply_wire_update(old(self)@, WireUpdate::Row { row, seq, cells: *cells }, now),
    {
        let mut decoded: Vec<(char, Option<u32>)> = Vec::new();
        let mut i: usize = 0;
        while i < cells.len()
            invariant
                i <= cells@.len(),
                decoded@ == Seq::new(i as nat, |k: int| spec_decode_wire_cell(cells@[k])),
            decreases cells@.len() - i,
        {
            decoded.push(decode_wire_cell(cells[i]));
            proof {
                assert(decoded@ =~= Seq::new((i + 1) as nat, |k: int| spec_decode_wire_cell(cells@[k])));
            }
            i = i + 1;
        }
        proof {
            assert(decoded@ =~= cells@.map_values(|c: u64| spec_decode_wire_cell(c)));
        }
        self.renderer.apply_row_from_cells(row as usize, seq, decoded.as_slice());
        let region = CellRegion { row_start: row as u64, row_end: row as u64 + 1, col_start: 0, col_stop: None };
        let dropped = self.cells_written(region, row as u64, row as u64 + 1, now);
        let w = self.renderer.effective_row_width(row as u64);
        let hint = self.hint_for(row as usize, w);
        self.backfill.has_loaded_rows = true;
        WireEffect { predictions_changed: dropped, cursor_hint: hint }
    }

    fn rect_update(
        &mut self,
        row_start: u32,
        row_end: u32,
        col_start: u32,
        col_end: u32,
        seq: u64,
        cell: u64,
        now: u64,
    ) -> (res: WireEffect)
        requires
            old(self).wf(),
            row_end <= usize::MAX,
            col_end < usize::MAX,
        ensures
            final(self).wf(),
            (final(self)@, res) == spec_apply_wire_update(
                old(self)@,
                WireUpdate::Rect { row_start, row_end, col_start, col_end, seq, cell },
                now,
            ),
    {
        let (ch, style) = decode_wire_cell(cell);
        self.renderer.apply_rect(row_start as usize..row_end as usize, col_start as usize..col_end as usize, seq, ch, style);
        let region = CellRegion {
            row_start: row_start as u64,
            row_end: row_end as u64,
            col_start: col_start as u64,
            col_stop: Some(col_end as u64),
        };
        let dropped = self.cells_written(region, row_start as u64, row_end as u64, now);
        let last: usize = if row_end >= 1 {
            (row_end - 1) as usize
        } else {
            0
        };
        let w = self.renderer.effective_row_width(last as u64);
        let hint = self.hint_for(last, w);
        self.backfill.has_loaded_rows = true;
        WireEffect { predictions_changed: dropped, cursor_hint: hint }
    }

    fn segment_update(&mut self, row: u32, start_col: u32, seq: u64, cells: &Vec<u64>, now: u64) -> (res: WireEffect)
        requires
            old(self).wf(),
            row < usize::MAX,
            start_col + cells@.len() < usize::MAX,
        ensures
            final(self).wf(),
            (final(self)@, res) == spec_apply_wire_update(
                old(self)@,
                WireUpdate::RowSegment { row, start_col, seq, cells: *cells },
                now,
            ),
    {
        if cells.len() == 0 {
            self.backfill.has_loaded_rows = true;
            return WireEffect { predictions_changed: false, cursor_hint: None };
        }
        let mut segment: Vec<(usize, u64, char, Option<u32>)> = Vec::new();
        let mut i: usize = 0;
        while i < cells.len()
            invariant
                i <= cells@.len(),
                start_col + cells@.len() < usize::MAX,
                segment@ == segment_cells(start_col, seq, cells@).take(i as int),
            decreases cells@.len() - i,
        {
            let (ch, style) = decode_wire_cell(cells[i]);
            segment.push((start_col as usize + i, seq, ch, style));
            proof {
                assert(segment@ =~= segment_cells(start_col, seq, cells@).take(i + 1));
            }
            i = i + 1;
        }
        proof {
            assert(segment@ =~= segment_cells(start_col, seq, cells@));
        }
        self.renderer.apply_segment(row as usize, segment.as_slice());
        let stop = start_col as u64 + cells.len() as u64;
        let region = CellRegion { row_start: row as u64, row_end: row as u64 + 1, col_start: start_col as u64, col_stop: Some(stop) };
        let dropped = self.cells_written(region, row as u64, row as u64 + 1, now);
        let w = self.renderer.effective_row_width(row as u64);
        let hint = self.hint_for(row as usize, w);
        self.backfill.has_loaded_rows = true;
        WireEffect { predictions_changed: dropped, cursor_hint: hint }
    }

    fn trim_rows(&mut self, start: u32, count: u32, now: u64) -> (res: bool)
        requires
            old(self).wf(),
        ensures
            final(self).wf(),
            (final(self)@, res) == spec_trim_rows(old(self)@, start, count, now),
    {
        self.renderer.apply_trim(start as usize, count as usize);
        let changed = self.pending.len() > 0;
        if changed {
            self.pending.clear();
            self.view.force_render = true;
            self.sync_cursor(now);
        }
        changed
    }

    fn after_trim(&mut self, start: u32, count: u32)
        requires
            old(self).wf(),
            start + count <= usize::MAX,
        ensures
            final(self).wf(),
            final(self)@ == spec_after_trim(old(self)@, start, count),
    {
        trim_bookkeeping(&mut self.backfill, start as u64 + count as u64);
        let first = start as usize;
        let end = first + count as usize;
        if self.cursor.row >= first && self.cursor.row < end {
            self.cursor.row = end;
            self.cursor.col = 0;
        }
        let (r, c) = (self.cursor.row, self.cursor.col);
        self.update_server_cursor(r, c);
        self.view.force_render = true;
    }

    fn trim_update(&mut self, start: u32, count: u32, now: u64) -> (res: WireEffect)
        requires
            old(self).wf(),
            start + count <= usize::MAX,
        ensures
            final(self).wf(),
            (final(self)@, res) == spec_apply_wire_update(old(self)@, WireUpdate::Trim { start, count }, now),
    {
        let changed = self.trim_rows(start, count, now);
        self.after_trim(start, count);
        WireEffect { predictions_changed: changed, cursor_hint: None }
    }

    /// Takes in the history bounds an update shows, before it is applied
    /// (see `spec_observe_bounds`).
    pub fn observe_update_bounds(&mut self, update: &WireUpdate, authoritative: bool)
        requires
            old(self).wf(),
        ensures
            final(self).wf(),
            final(self)@ == spec_observe_bounds(old(self)@, *update, authoritative),
    {
        let first: Option<u32> = match update {
            WireUpdate::Cell { row, .. } => Some(*row),
            WireUpdate::Row { row, .. } => Some(*row),
            WireUpdate::RowSegment { row, .. } => Some(*row),
            WireUpdate::Rect { row_start, .. } => Some(*row_start),
            _ => None,
        };
        if let Some(r) = first {
            let row = r as u64;
            if authoritative {
                let base = match self.backfill.known_base_row {
                    Some(k) => if k <= row {
                        k
                    } else {
                        row
                    },
                    None => row,
                };
                self.backfill.known_base_row = Some(base);
                self.renderer.set_base_row(base);
            } else if row < self.renderer.base_row() {
                self.renderer.set_base_row(row);
            }
        }
    }

    /// Applies a grid update from the host (see `spec_apply_wire_update`).
    /// When predictions were dropped the caller refreshes the prediction
    /// overlay, then applies the inferred cursor position, if any, with
    /// `apply_cursor_hint`.
    pub fn apply_wire_update(&mut self, update: &WireUpdate, now: u64) -> (res: WireEffect)
        requires
            old(self).wf(),
            wire_update_fits(*update),
        ensures
            final(self).wf(),
            (final(self)@, res) == spec_apply_wire_update(old(self)@, *update, now),
    {
        match update {
            WireUpdate::Cell { row, col, seq, cell } => self.cell_update(*row, *col, *seq, *cell, now),
            WireUpdate::Row { row, seq, cells } => self.row_update(*row, *seq, cells, now),
            WireUpdate::Rect { row_start, row_end, col_start, col_end, seq, cell } => self.rect_update(
                *row_start,
                *row_end,
                *col_start,
                *col_end,
                *seq,
                *cell,
                now,
            ),
            WireUpdate::RowSegment { row, start_col, seq, cells } => self.segment_update(*row, *start_col, *seq, cells, now),
            WireUpdate::Trim { start, count } => self.trim_update(*start, *count, now),
            WireUpdate::Style { id, seq, fg, bg, attrs } => {
                self.renderer.set_style(*id, *fg, *bg, *attrs);
                if *seq > self.last_seq {
                    self.last_seq = *seq;
                }
                WireEffect { predictions_changed: false, cursor_hint: None }
            },
        }
    }

    /// Applies a cursor position inferred from an update (see
    /// `spec_apply_cursor_hint`).
    pub fn apply_cursor_hint(&mut self, row: usize, col: usize)
        requires
            old(self).wf(),
        ensures
            final(self).wf(),
            final(self)@ == spec_apply_cursor_hint(old(self)@, row, col),
    {
        let mut target = col;
        if self.pending.row_has_predictions(&self.renderer, row) {
            let predicted = self.renderer.predicted_row_width(row as u64);
            let committed = self.renderer.committed_row_width(row as u64);
            let wider = if committed >= predicted {
                committed
            } else {
                predicted
            };
            let cap = if predicted <= wider {
                predicted
            } else {
                wider
            };
            if cap > target {
                target = cap;
            }
            if row == self.cursor.row && self.cursor.col > target {
                target = self.cursor.col;
            }
        }
        let total = self.renderer.total_cols();
        if total > 0 && target > total {
            target = total;
        }
        self.update_server_cursor(row, target);
    }

    /// Books cells written in region `r`, rows `lo..hi` (see
    /// `spec_cells_written`).
    fn cells_written(&mut self, r: CellRegion, lo: u64, hi: u64, now: u64) -> (res: bool)
        requires
            old(self).wf(),
        ensures
            final(self).wf(),
            (final(self)@, res) == spec_cells_written(old(self)@, r, lo, hi, now),
    {
        let dropped = self.pending.drop_predictions_in(r);
        if dropped {
            self.view.force_render = true;
            self.sync_cursor(now);
        }
        note_rows(&mut self.backfill, lo, hi);
        self.backfill.clear_empty_tail_ranges(lo, hi);
        dropped
    }
}

/// Books a trim up to `origin` (see `spec_trim_bookkeeping`).
fn trim_bookkeeping(b: &mut Backfill, origin: u64)
    ensures
        final(b)@ == spec_trim_bookkeeping(old(b)@, origin),
{
    let base = match b.known_base_row {
        Some(k) => if k < origin {
            origin
        } else {
            k
        },
        None => origin,
    };
    b.known_base_row = Some(base);
    if let Some(h) = b.highest_loaded_row {
        if h < origin {
            b.highest_loaded_row = None;
        }
    }
}

/// Notes rows `lo..hi` as loaded, one by one.
fn note_rows(b: &mut Backfill, lo: u64, hi: u64)
    ensures
        final(b)@ == spec_note_rows(old(b)@, lo, hi),
{
    let mut r = lo;
    while r < hi
        invariant
            lo <= r || hi <= lo,
            hi <= lo ==> r == lo,
            spec_note_rows(b@, r, hi) == spec_note_rows(old(b)@, lo, hi),
        decreases hi - r,
    {
        b.note_loaded_row(r);
        r = r + 1;
    }
}

} // verus!

//! The client's grid renderer: the rows of the terminal it has received,
//! the viewport over them, predicted cells, the selection, the cursor and
//! the status line. Drawing with a terminal UI library is left to the
//! application; this module decides what is drawn.

use vstd::prelude::*;

use crate::assoc::{assoc_map, keys_unique};
use crate::cache::terminal::packed::Style;
use crate::cache::SeqNum;

pub mod laws;
pub mod predictions;
pub mod rows;
pub mod style;
pub mod text;
pub mod viewport;

verus! {

/// One rendered cell: a character, its style id (`None` for the default
/// style) and the sequence number of the update that wrote it.
#[derive(Clone, Copy, Debug, PartialEq, Eq, Structural)]
pub struct CellState {
    pub ch: char,
    pub style_id: Option<u32>,
    pub seq: SeqNum,
}

impl CellState {
    /// A space in the default style with sequence 0.
    pub fn blank() -> (res: Self)
        ensures
            res == spec_blank_cell_state(),
    {
        CellState { ch: ' ', style_id: None, seq: 0 }
    }
}

/// A space in the default style with sequence 0.
pub open spec fn spec_blank_cell_state() -> CellState {
    CellState { ch: ' ', style_id: None, seq: 0 }
}

/// A position in the grid: an absolute row and a column.
#[derive(Clone, Copy, Debug, Default, PartialEq, Eq, Structural)]
pub struct SelectionPosition {
    pub row: u64,
    pub col: usize,
}

/// How a selection covers the grid.
#[derive(Clone, Copy, Debug, PartialEq, Eq, Structural)]
pub enum SelectionMode {
    /// Running text from one position to the other.
    Character,
    /// Whole rows.
    Line,
    /// The rectangle spanned by the two positions.
    Block,
}

/// A selection between an anchor and a head position.
#[derive(Clone, Copy, Debug, PartialEq, Eq, Structural)]
pub struct SelectionRange {
    pub anchor: SelectionPosition,
    pub head: SelectionPosition,
    pub mode: SelectionMode,
}

/// Whether `a` comes no later than `b` in reading order.
pub open spec fn position_le(a: SelectionPosition, b: SelectionPosition) -> bool {
    a.row < b.row || (a.row == b.row && a.col <= b.col)
}

/// Whether the selection from `anchor` to `head` in `mode` covers `pos`.
pub open spec fn spec_selection_contains(
    anchor: SelectionPosition,
    head: SelectionPosition,
    mode: SelectionMode,
    pos: SelectionPosition,
) -> bool {
    let min_row = if anchor.row <= head.row {
        anchor.row
    } else {
        head.row
    };
    let max_row = if anchor.row <= head.row {
        head.row
    } else {
        anchor.row
    };
    match mode {
        SelectionMode::Character => {
            let (start, end) = if position_le(anchor, head) {
                (anchor, head)
            } else {
                (head, anchor)
            };
            position_le(start, pos) && position_le(pos, end)
        },
        SelectionMode::Line => min_row <= pos.row <= max_row,
        SelectionMode::Block => {
            let min_col = if anchor.col <= head.col {
                anchor.col
            } else {
                head.col
            };
            let max_col = if anchor.col <= head.col {
                head.col
            } else {
                anchor.col
            };
            min_row <= pos.row <= max_row && min_col <= pos.col <= max_col
        },
    }
}

impl SelectionRange {
    pub fn new(anchor: SelectionPosition, head: SelectionPosition, mode: SelectionMode) -> (res: Self)
        ensures
            res == (SelectionRange { anchor, head, mode }),
    {
        SelectionRange { anchor, head, mode }
    }

    pub fn mode(&self) -> (res: SelectionMode)
        ensures
            res == self.mode,
    {
        self.mode
    }

    /// The smallest and largest row of the two positions.
    pub fn row_bounds(&self) -> (res: (u64, u64))
        ensures
            res.0 == (if self.anchor.row <= self.head.row {
                self.anchor.row
            } else {
                self.head.row
            }),
            res.1 == (if self.anchor.row <= self.head.row {
                self.head.row
            } else {
                self.anchor.row
            }),
    {
        let min = self.anchor.row.min(self.head.row);
        let max = self.anchor.row.max(self.head.row);
        (min, max)
    }

    /// The two positions in reading order.
    pub fn ordered_positions(&self) -> (res: (SelectionPosition, SelectionPosition))
        ensures
            position_le(self.anchor, self.head) ==> res == (self.anchor, self.head),
            !position_le(self.anchor, self.head) ==> res == (self.head, self.anchor),
    {
        if self.anchor.row < self.head.row || (self.anchor.row == self.head.row && self.anchor.col
            <= self.head.col) {
            (self.anchor, self.head)
        } else {
            (self.head, self.anchor)
        }
    }

    /// The smallest and largest column of the two positions.
    pub fn block_col_bounds(&self) -> (res: (usize, usize))
        ensures
            res.0 == (if self.anchor.col <= self.head.col {
                self.anchor.col
            } else {
                self.head.col
            }),
            res.1 == (if self.anchor.col <= self.head.col {
                self.head.col
            } else {
                self.anchor.col
            }),
    {
        let min = self.anchor.col.min(self.head.col);
        let max = self.anchor.col.max(self.head.col);
        (min, max)
    }

    /// Whether the selection covers `pos`.
    pub fn contains(&self, pos: SelectionPosition) -> (res: bool)
        ensures
            res == spec_selection_contains(self.anchor, self.head, self.mode, pos),
    {
        match self.mode {
            SelectionMode::Character => {
                let (start, end) = self.ordered_positions();
                if pos.row < start.row || pos.row > end.row {
                    return false;
                }
                if start.row == end.row {
                    return pos.col >= start.col && pos.col <= end.col;
                }
                if pos.row == start.row {
                    return pos.col >= start.col;
                }
                if pos.row == end.row {
                    return pos.col <= end.col;
                }
                true
            },
            SelectionMode::Line => {
                let (min_row, max_row) = self.row_bounds();
                pos.row >= min_row && pos.row <= max_row
            },
            SelectionMode::Block => {
                let (min_row, max_row) = self.row_bounds();
                if pos.row < min_row || pos.row > max_row {
                    return false;
                }
                let (min_col, max_col) = self.block_col_bounds();
                pos.col >= min_col && pos.col <= max_col
            },
        }
    }
}

/// A selection does not depend on which end is the anchor.
pub proof fn law_selection_symmetric(
    anchor: SelectionPosition,
    head: SelectionPosition,
    mode: SelectionMode,
    pos: SelectionPosition,
)
    ensures
        spec_selection_contains(anchor, head, mode, pos) == spec_selection_contains(head, anchor, mode, pos),
{
}

/// A selection covers both of its ends.
pub proof fn law_selection_contains_ends(anchor: SelectionPosition, head: SelectionPosition, mode: SelectionMode)
    ensures
        spec_selection_contains(anchor, head, mode, anchor),
        spec_selection_contains(anchor, head, mode, head),
{
}

/// One rendered row: its cells, the newest sequence applied to it and the
/// width of its text.
#[derive(Clone, Debug)]
pub struct RowState {
    pub cells: Vec<CellState>,
    pub latest_seq: SeqNum,
    pub logical_width: usize,
}

impl RowState {
    /// A row of `cols` blank cells (at least one).
    pub fn new(cols: usize) -> (res: Self)
        ensures
            res.cells@ == Seq::new(
                (if cols >= 1 {
                    cols
                } else {
                    1
                }) as nat,
                |_i: int| spec_blank_cell_state(),
            ),
            res.latest_seq == 0,
            res.logical_width == 0,
    {
        let n = cols.max(1);
        let mut cells: Vec<CellState> = Vec::with_capacity(n);
        let mut i: usize = 0;
        while i < n
            invariant
                i <= n,
                cells@ == Seq::new(i as nat, |_i: int| spec_blank_cell_state()),
            decreases n - i,
        {
            cells.push(CellState::blank());
            i = i + 1;
        }
        RowState { cells, latest_seq: 0, logical_width: 0 }
    }

    /// Widens the row with blank cells to at least `cols` cells.
    pub fn ensure_cols(&mut self, cols: usize)
        ensures
            final(self).latest_seq == old(self).latest_seq,
            final(self).logical_width == old(self).logical_width,
            old(self).cells@.len() >= cols ==> final(self).cells@ == old(self).cells@,
            old(self).cells@.len() < cols ==> final(self).cells@ == old(self).cells@ + Seq::new(
                (cols - old(self).cells@.len()) as nat,
                |_i: int| spec_blank_cell_state(),
            ),
    {
        if self.cells.len() < cols {
            let start = self.cells.len();
            let ghost old_cells = self.cells@;
            let mut i = start;
            while i < cols
                invariant
                    start <= i <= cols,
                    start == old_cells.len(),
                    self.cells@ == old_cells + Seq::new((i - start) as nat, |_i: int| spec_blank_cell_state()),
                    self.latest_seq == old(self).latest_seq,
                    self.logical_width == old(self).logical_width,
                    old_cells == old(self).cells@,
                decreases cols - i,
            {
                self.cells.push(CellState::blank());
                proof {
                    assert(old_cells + Seq::new((i + 1 - start) as nat, |_i: int| spec_blank_cell_state()) =~= (
                    old_cells + Seq::new((i - start) as nat, |_i: int| spec_blank_cell_state())).push(
                        spec_blank_cell_state(),
                    ));
                }
                i = i + 1;
            }
        }
    }

    /// Whether every cell holds a space.
    pub fn is_blank(&self) -> (res: bool)
        ensures
            res == forall|i: int| 0 <= i < self.cells@.len() ==> (#[trigger] self.cells@[i]).ch == ' ',
    {
        let n = self.cells.len();
        let mut i: usize = 0;
        while i < n
            invariant
                n == self.cells@.len(),
                i <= n,
                forall|k: int| 0 <= k < i ==> (#[trigger] self.cells@[k]).ch == ' ',
            decreases n - i,
        {
            if self.cells[i].ch != ' ' {
                return false;
            }
            i = i + 1;
        }
        true
    }
}


/// The mathematical content of a row.
#[verifier::ext_equal]
pub struct RowView {
    pub cells: Seq<CellState>,
    pub latest_seq: SeqNum,
    pub logical_width: nat,
}

impl View for RowState {
    type V = RowView;

    open spec fn view(&self) -> RowView {
        RowView { cells: self.cells@, latest_seq: self.latest_seq, logical_width: self.logical_width as nat }
    }
}

/// What the renderer knows of a row.
#[derive(Clone, Debug)]
pub enum RowSlot {
    /// Requested, not received yet.
    Pending,
    /// Received.
    Loaded(RowState),
    /// Known to be unavailable.
    Missing,
}

/// The mathematical content of a row slot.
pub enum SlotView {
    Pending,
    Loaded(RowView),
    Missing,
}

impl View for RowSlot {
    type V = SlotView;

    open spec fn view(&self) -> SlotView {
        match self {
            RowSlot::Pending => SlotView::Pending,
            RowSlot::Loaded(r) => SlotView::Loaded(r@),
            RowSlot::Missing => SlotView::Missing,
        }
    }
}

/// A character typed locally and shown before the host echoes it.
#[derive(Clone, Copy, Debug, PartialEq, Eq, Structural)]
pub struct PredictedCell {
    pub ch: char,
    pub seq: SeqNum,
}

/// The cursor: an absolute row, a column and whether it is shown.
#[derive(Clone, Copy, Debug, PartialEq, Eq, Structural)]
pub struct GridCursor {
    pub absolute_row: u64,
    pub col: usize,
    pub visible: bool,
}

/// The connection indicator of the status line: its text and the style it
/// is drawn in, encoded as cell styles are.
#[derive(Clone, Debug)]
pub struct StatusIndicator {
    pub text: String,
    pub style: Style,
}

/// Which update is being applied, for tracing.
#[derive(Clone, Copy, Debug)]
pub struct GridUpdateDebugContext {
    pub frame: &'static str,
    pub update: &'static str,
    pub row: Option<u64>,
    pub seq: Option<SeqNum>,
}

/// The area of the screen that the grid body is drawn in.
#[derive(Clone, Copy, Debug, PartialEq, Eq, Structural)]
pub struct WidgetArea {
    pub x: u16,
    pub y: u16,
    pub width: u16,
    pub height: u16,
}

/// The mathematical content of a renderer.
#[verifier::ext_equal]
pub struct RendererView {
    /// The absolute number of the first row held.
    pub base_row: u64,
    /// The number of columns; every loaded row holds exactly this many cells.
    pub cols: nat,
    /// The rows held, the first being `base_row`.
    pub rows: Seq<SlotView>,
    /// The index (into `rows`) of the first row of the viewport.
    pub scroll_top: nat,
    /// The number of rows of the viewport.
    pub viewport_height: nat,
    /// Whether the viewport sticks to the newest rows.
    pub follow_tail: bool,
    /// Whether history before the first row has been dropped.
    pub history_trimmed: bool,
    pub selection: Option<SelectionRange>,
    /// Whether something changed since the last frame.
    pub needs_redraw: bool,
    /// Predicted cells by (absolute row, column).
    pub predictions: Map<(u64, usize), PredictedCell>,
    pub predictions_visible: bool,
    pub prediction_flagging: bool,
    pub status_message: Option<Seq<char>>,
    pub status_highlight: Option<Seq<char>>,
    pub status_is_error: bool,
    /// The text of the connection indicator and the style it is drawn in.
    pub connection_status: Option<(Seq<char>, Style)>,
    /// Styles by id.
    pub styles: Map<u32, Style>,
    pub debug_context: Option<GridUpdateDebugContext>,
    pub cursor: Option<GridCursor>,
}

/// Keeps the rows of a remote terminal and decides what to draw of them.
pub struct GridRenderer {
    base_row: u64,
    cols: usize,
    rows: Vec<RowSlot>,
    scroll_top: usize,
    viewport_height: usize,
    follow_tail: bool,
    history_trimmed: bool,
    selection: Option<SelectionRange>,
    needs_redraw: bool,
    predictions: Vec<((u64, usize), PredictedCell)>,
    predictions_visible: bool,
    prediction_flagging: bool,
    status_message: Option<String>,
    status_highlight: Option<String>,
    status_is_error: bool,
    connection_status: Option<StatusIndicator>,
    styles: Vec<(u32, Style)>,
    debug_context: Option<GridUpdateDebugContext>,
    cursor: Option<GridCursor>,
}

/// The text of an optional string.
pub open spec fn opt_str(s: Option<String>) -> Option<Seq<char>> {
    match s {
        Some(t) => Some(t@),
        None => None,
    }
}

/// The slots of `rows`, each by its view.
pub open spec fn slots_view(rows: Seq<RowSlot>) -> Seq<SlotView> {
    rows.map_values(|r: RowSlot| r@)
}

/// Every loaded row holds exactly `cols` cells.
pub open spec fn rows_fit(rows: Seq<SlotView>, cols: nat) -> bool {
    forall|i: int| 0 <= i < rows.len() ==> (#[trigger] rows[i] matches SlotView::Loaded(r) ==> r.cells.len() == cols)
}

/// The invariant of a renderer, over its view: at least one column, every
/// loaded row exactly as wide as the grid, absolute row numbers that fit in a
/// `usize` (the type updates address rows by), the viewport starting within
/// the rows, a viewport no taller than a terminal can be, and finitely many
/// predictions.
pub open spec fn renderer_wf(v: RendererView) -> bool {
    &&& v.cols >= 1
    &&& v.viewport_height <= u16::MAX
    &&& rows_fit(v.rows, v.cols)
    &&& v.base_row + v.rows.len() <= usize::MAX
    &&& v.scroll_top <= v.rows.len()
    &&& v.predictions.dom().finite()
}

impl View for GridRenderer {
    type V = RendererView;

    closed spec fn view(&self) -> RendererView {
        RendererView {
            base_row: self.base_row,
            cols: self.cols as nat,
            rows: slots_view(self.rows@),
            scroll_top: self.scroll_top as nat,
            viewport_height: self.viewport_height as nat,
            follow_tail: self.follow_tail,
            history_trimmed: self.history_trimmed,
            selection: self.selection,
            needs_redraw: self.needs_redraw,
            predictions: assoc_map(self.predictions@),
            predictions_visible: self.predictions_visible,
            prediction_flagging: self.prediction_flagging,
            status_message: opt_str(self.status_message),
            status_highlight: opt_str(self.status_highlight),
            status_is_error: self.status_is_error,
            connection_status: match self.connection_status {
                Some(c) => Some((c.text@, c.style)),
                None => None,
            },
            styles: assoc_map(self.styles@),
            debug_context: self.debug_context,
            cursor: self.cursor,
        }
    }
}

impl GridRenderer {
    /// The renderer's invariant: that of its view, and no key twice in the
    /// lists behind its maps.
    pub closed spec fn wf(&self) -> bool {
        &&& renderer_wf(self@)
        &&& keys_unique(self.predictions@)
        &&& keys_unique(self.styles@)
    }

    /// A well-formed renderer has a well-formed view.
    pub proof fn lemma_view_wf(&self)
        requires
            self.wf(),
        ensures
            renderer_wf(self@),
    {
    }
}


/// The larger of two sequence numbers.
pub open spec fn max_seq(a: SeqNum, b: SeqNum) -> SeqNum {
    if a >= b {
        a
    } else {
        b
    }
}

/// The larger of two naturals.
pub open spec fn max_nat(a: nat, b: nat) -> nat {
    if a >= b {
        a
    } else {
        b
    }
}

/// `n` blank cells.
pub open spec fn blank_cells(n: nat) -> Seq<CellState> {
    Seq::new(n, |_i: int| spec_blank_cell_state())
}

/// A fresh row of `cols` blank cells.
pub open spec fn blank_row(cols: nat) -> RowView {
    RowView { cells: blank_cells(cols), latest_seq: 0, logical_width: 0 }
}

/// `n` pending slots.
pub open spec fn pending_rows(n: nat) -> Seq<SlotView> {
    Seq::new(n, |_i: int| SlotView::Pending)
}

/// A row widened with blank cells to at least `cols` cells.
pub open spec fn widen_row(r: RowView, cols: nat) -> RowView {
    if r.cells.len() >= cols {
        r
    } else {
        RowView { cells: r.cells + blank_cells((cols - r.cells.len()) as nat), ..r }
    }
}

/// A slot whose row, if loaded, is widened to at least `cols` cells.
pub open spec fn widen_slot(s: SlotView, cols: nat) -> SlotView {
    match s {
        SlotView::Loaded(r) => SlotView::Loaded(widen_row(r, cols)),
        SlotView::Pending => SlotView::Pending,
        SlotView::Missing => SlotView::Missing,
    }
}

/// The row of a slot, or a blank row of `cols` cells when it is not loaded.
pub open spec fn row_or_blank(s: SlotView, cols: nat) -> RowView {
    match s {
        SlotView::Loaded(r) => r,
        _ => blank_row(cols),
    }
}

/// The index into the rows of absolute row `abs`, when it is held.
pub open spec fn rel_index(v: RendererView, abs: int) -> Option<int> {
    if v.base_row <= abs < v.base_row + v.rows.len() {
        Some(abs - v.base_row)
    } else {
        None
    }
}

/// The renderer with at least `cols` columns, loaded rows widened to match.
pub open spec fn spec_ensure_cols(v: RendererView, cols: nat) -> RendererView {
    if cols <= v.cols {
        v
    } else {
        RendererView { cols, rows: v.rows.map_values(|s: SlotView| widen_slot(s, cols)), ..v }
    }
}

/// The renderer holding at least `len` rows, new ones pending.
pub open spec fn spec_extend_rows(v: RendererView, len: nat) -> RendererView {
    if len <= v.rows.len() {
        v
    } else {
        RendererView { rows: v.rows + pending_rows((len - v.rows.len()) as nat), ..v }
    }
}

/// The renderer holding absolute row `abs`: pending rows are added before
/// the first row (moving the base and keeping the viewport on the same
/// rows) or after the last one.
pub open spec fn spec_touch(v: RendererView, abs: int) -> RendererView {
    if abs < v.base_row {
        let missing = (v.base_row - abs) as nat;
        RendererView {
            rows: pending_rows(missing) + v.rows,
            base_row: abs as u64,
            scroll_top: v.scroll_top + missing,
            ..v
        }
    } else {
        spec_extend_rows(v, (abs - v.base_row + 1) as nat)
    }
}

/// The renderer with prediction `key` removed, marked dirty if there was one.
pub open spec fn spec_clear_prediction(v: RendererView, key: (u64, usize)) -> RendererView {
    if v.predictions.contains_key(key) {
        RendererView { predictions: v.predictions.remove(key), needs_redraw: true, ..v }
    } else {
        v
    }
}

/// The index of the last loaded row among the first `n` that is not all
/// spaces.
pub open spec fn last_nonblank_loaded(rows: Seq<SlotView>, n: int) -> Option<int>
    decreases n,
{
    if n <= 0 {
        None
    } else if rows[n - 1] matches SlotView::Loaded(r) && !row_is_blank(r) {
        Some(n - 1)
    } else {
        last_nonblank_loaded(rows, n - 1)
    }
}

/// The index of the last loaded row among the first `n`.
pub open spec fn last_loaded(rows: Seq<SlotView>, n: int) -> Option<int>
    decreases n,
{
    if n <= 0 {
        None
    } else if rows[n - 1] is Loaded {
        Some(n - 1)
    } else {
        last_loaded(rows, n - 1)
    }
}

/// Whether every cell of a row holds a space.
pub open spec fn row_is_blank(r: RowView) -> bool {
    forall|i: int| 0 <= i < r.cells.len() ==> (#[trigger] r.cells[i]).ch == ' '
}

/// The row the tail view ends on: the last loaded row with text, else the
/// last loaded row.
pub open spec fn last_loaded_row_index(rows: Seq<SlotView>) -> Option<int> {
    match last_nonblank_loaded(rows, rows.len() as int) {
        Some(i) => Some(i),
        None => last_loaded(rows, rows.len() as int),
    }
}

/// `a - b`, or 0 when `b` is larger.
pub open spec fn sat_sub(a: int, b: int) -> nat {
    if a >= b {
        (a - b) as nat
    } else {
        0
    }
}

/// The renderer scrolled so that its viewport ends at the last row with
/// text (or the last row, when none is loaded), following the tail.
pub open spec fn spec_scroll_to_tail(v: RendererView) -> RendererView {
    if v.viewport_height == 0 || v.rows.len() == 0 {
        RendererView { scroll_top: 0, ..v }
    } else {
        let max_scroll = sat_sub(v.rows.len() as int, v.viewport_height as int);
        let target = match last_loaded_row_index(v.rows) {
            Some(idx) => sat_sub(idx, v.viewport_height - 1),
            None => max_scroll,
        };
        RendererView {
            scroll_top: if target <= max_scroll {
                target
            } else {
                max_scroll
            },
            follow_tail: true,
            needs_redraw: true,
            ..v
        }
    }
}


/// The renderer after moving its first row to absolute row `base`: rows
/// before it are dropped, or pending rows are added in front, the viewport
/// staying on the same rows where they are still held.
pub open spec fn spec_set_base_row(v: RendererView, base: u64) -> RendererView {
    if base == v.base_row {
        v
    } else if base > v.base_row {
        let drop = base - v.base_row;
        if drop >= v.rows.len() {
            RendererView { rows: Seq::empty(), scroll_top: 0, base_row: base, needs_redraw: true, ..v }
        } else {
            RendererView {
                rows: v.rows.skip(drop),
                scroll_top: sat_sub(v.scroll_top as int, drop),
                base_row: base,
                needs_redraw: true,
                ..v
            }
        }
    } else {
        let add = (v.base_row - base) as nat;
        RendererView {
            rows: pending_rows(add) + v.rows,
            scroll_top: v.scroll_top + add,
            base_row: base,
            needs_redraw: true,
            ..v
        }
    }
}

/// A row after writing `ch` in `style_id` at column `col` with sequence
/// `seq`, when `seq` is not older than the cell's.
pub open spec fn spec_write_cell(r: RowView, col: int, seq: SeqNum, ch: char, style_id: Option<u32>) -> RowView {
    if seq >= r.cells[col].seq {
        RowView {
            cells: r.cells.update(col, CellState { ch, style_id, seq }),
            latest_seq: max_seq(r.latest_seq, seq),
            logical_width: max_nat(r.logical_width, (col + 1) as nat),
        }
    } else {
        r
    }
}

/// The renderer after applying one cell from the host: the row is made held
/// and loaded, the grid widened to the column, a prediction there dropped,
/// the cell written unless older, and the tail followed.
pub open spec fn spec_apply_cell(
    v: RendererView,
    abs: int,
    col: int,
    seq: SeqNum,
    ch: char,
    style_id: Option<u32>,
) -> RendererView {
    let v1 = spec_clear_prediction(spec_ensure_cols(spec_touch(v, abs), (col + 1) as nat), (abs as u64, col as usize));
    let i = abs - v1.base_row;
    let r = row_or_blank(v1.rows[i], v1.cols);
    let v2 = RendererView {
        rows: v1.rows.update(i, SlotView::Loaded(spec_write_cell(r, col, seq, ch, style_id))),
        needs_redraw: v1.needs_redraw || seq >= r.cells[col].seq,
        ..v1
    };
    if v2.follow_tail {
        spec_scroll_to_tail(v2)
    } else {
        v2
    }
}


/// The cell at column `c` after a whole-row update with sequence `seq`
/// carrying `cells` (blanks past them), unless the cell is newer.
pub open spec fn row_cell_after(r: RowView, seq: SeqNum, cells: Seq<(char, Option<u32>)>, c: int) -> CellState {
    if seq >= r.cells[c].seq {
        if c < cells.len() {
            CellState { ch: cells[c].0, style_id: cells[c].1, seq }
        } else {
            CellState { ch: ' ', style_id: None, seq }
        }
    } else {
        r.cells[c]
    }
}

/// Whether every character of `cells` is a space.
pub open spec fn all_spaces(cells: Seq<(char, Option<u32>)>) -> bool {
    forall|c: int| 0 <= c < cells.len() ==> (#[trigger] cells[c]).0 == ' '
}

/// Whether a whole-row update with sequence `seq` writes column `c` of `r`.
pub open spec fn row_written(r: RowView, seq: SeqNum, c: int) -> bool {
    0 <= c < r.cells.len() && seq >= r.cells[c].seq
}

/// A row after a whole-row update with sequence `seq` carrying `cells`: each
/// cell not newer is overwritten (blanked past the update's end), and the
/// text width becomes the update's length, or 0 when it is all spaces.
pub open spec fn spec_write_row(r: RowView, seq: SeqNum, cells: Seq<(char, Option<u32>)>) -> RowView {
    RowView {
        cells: Seq::new(r.cells.len(), |c: int| row_cell_after(r, seq, cells, c)),
        latest_seq: max_seq(r.latest_seq, seq),
        logical_width: if all_spaces(cells) {
            0
        } else {
            cells.len()
        },
    }
}

/// The predictions without those on row `abs` at the columns `hit` names.
pub open spec fn drop_predictions(
    preds: Map<(u64, usize), PredictedCell>,
    abs: u64,
    hit: spec_fn(int) -> bool,
) -> Map<(u64, usize), PredictedCell> {
    Map::new(
        |k: (u64, usize)| preds.contains_key(k) && !(k.0 == abs && hit(k.1 as int)),
        |k: (u64, usize)| preds[k],
    )
}

/// The renderer after a whole-row update from the host: the row is made
/// held and loaded and the grid widened past the update's length; an update
/// older than the row's newest leaves the row as it is; otherwise the row is
/// rewritten and the predictions on the columns written are dropped.
pub open spec fn spec_apply_row(v: RendererView, abs: int, seq: SeqNum, cells: Seq<(char, Option<u32>)>) -> RendererView {
    let v1 = spec_ensure_cols(spec_touch(v, abs), (cells.len() + 1) as nat);
    let i = abs - v1.base_row;
    let r = row_or_blank(v1.rows[i], v1.cols);
    if seq < r.latest_seq {
        RendererView { rows: v1.rows.update(i, SlotView::Loaded(r)), ..v1 }
    } else {
        RendererView {
            rows: v1.rows.update(i, SlotView::Loaded(spec_write_row(r, seq, cells))),
            predictions: drop_predictions(v1.predictions, abs as u64, |c: int| row_written(r, seq, c)),
            needs_redraw: v1.needs_redraw || (exists|c: int| row_written(r, seq, c)),
            ..v1
        }
    }
}

/// The characters of a text, each in the default style.
pub open spec fn text_cells(text: Seq<char>) -> Seq<(char, Option<u32>)> {
    text.map_values(|c: char| (c, None::<u32>))
}


/// Whether a rectangle fill of columns `c0..c1` with sequence `seq` writes
/// column `c` of `r`.
pub open spec fn rect_written(r: RowView, c0: int, c1: int, seq: SeqNum, c: int) -> bool {
    c0 <= c < c1 && c < r.cells.len() && seq >= r.cells[c].seq
}

/// A row's text width after filling columns `c0..c1` with `ch`: a visible
/// character extends it to the fill's end; spaces from column 0 over the
/// whole text clear it.
pub open spec fn rect_logical_width(r: RowView, c0: int, c1: int, ch: char) -> nat {
    if ch != ' ' {
        max_nat(r.logical_width, c1 as nat)
    } else if c0 == 0 && c1 >= r.logical_width {
        0
    } else {
        r.logical_width
    }
}

/// The renderer after filling columns `c0..c1` of absolute row `abs` with
/// `ch` in `style_id`: the row is made held and loaded, the grid widened past
/// `c1`, every cell not newer than `seq` written and the predictions there
/// dropped.
pub open spec fn spec_rect_row(
    v: RendererView,
    abs: int,
    c0: int,
    c1: int,
    seq: SeqNum,
    ch: char,
    style_id: Option<u32>,
) -> RendererView {
    let v1 = spec_ensure_cols(spec_touch(v, abs), (c1 + 1) as nat);
    let i = abs - v1.base_row;
    let r = row_or_blank(v1.rows[i], v1.cols);
    let r2 = RowView {
        cells: Seq::new(
            r.cells.len(),
            |c: int|
                if rect_written(r, c0, c1, seq, c) {
                    CellState { ch, style_id, seq }
                } else {
                    r.cells[c]
                },
        ),
        latest_seq: max_seq(r.latest_seq, seq),
        logical_width: rect_logical_width(r, c0, c1, ch),
    };
    RendererView {
        rows: v1.rows.update(i, SlotView::Loaded(r2)),
        predictions: drop_predictions(v1.predictions, abs as u64, |c: int| rect_written(r, c0, c1, seq, c)),
        needs_redraw: v1.needs_redraw || (exists|c: int| rect_written(r, c0, c1, seq, c)),
        ..v1
    }
}

/// The renderer after filling rows `r0..r0 + k`.
pub open spec fn spec_rect_rows(
    v: RendererView,
    r0: int,
    k: int,
    c0: int,
    c1: int,
    seq: SeqNum,
    ch: char,
    style_id: Option<u32>,
) -> RendererView
    decreases k,
{
    if k <= 0 {
        v
    } else {
        spec_rect_row(spec_rect_rows(v, r0, k - 1, c0, c1, seq, ch, style_id), r0 + k - 1, c0, c1, seq, ch, style_id)
    }
}

/// The renderer after applying the first `k` cells of a segment of row
/// `abs`, one by one.
pub open spec fn spec_apply_cells(v: RendererView, abs: int, cells: Seq<(usize, SeqNum, char, Option<u32>)>, k: int) -> RendererView
    decreases k,
{
    if k <= 0 {
        v
    } else {
        let p = spec_apply_cells(v, abs, cells, k - 1);
        let c = cells[k - 1];
        spec_apply_cell(p, abs, c.0 as int, c.1, c.2, c.3)
    }
}

/// Whether blanking a segment's tail from column `end` with sequence `seq`
/// writes column `c` of `r`.
pub open spec fn tail_written(r: RowView, end: int, seq: SeqNum, c: int) -> bool {
    end <= c < r.cells.len() && seq >= r.cells[c].seq
}

/// The renderer after a segment that starts at column 0 of row `abs` (held
/// at index `i` and loaded): the text width becomes the segment's end (0 when
/// it is all spaces), and the cells past the end not newer than the last
/// cell's sequence are blanked, their predictions dropped.
pub open spec fn spec_segment_tail(v: RendererView, abs: int, i: int, end: int, seq: SeqNum, width: nat) -> RendererView {
    let r = row_or_blank(v.rows[i], v.cols);
    let r2 = RowView {
        cells: Seq::new(
            r.cells.len(),
            |c: int|
                if tail_written(r, end, seq, c) {
                    CellState { ch: ' ', style_id: None, seq }
                } else {
                    r.cells[c]
                },
        ),
        latest_seq: if end < r.cells.len() {
            max_seq(r.latest_seq, seq)
        } else {
            r.latest_seq
        },
        logical_width: width,
    };
    RendererView {
        rows: v.rows.update(i, SlotView::Loaded(r2)),
        predictions: drop_predictions(v.predictions, abs as u64, |c: int| tail_written(r, end, seq, c)),
        needs_redraw: v.needs_redraw || (exists|c: int| tail_written(r, end, seq, c)),
        ..v
    }
}

/// The renderer after a segment of cells `(column, sequence, character,
/// style)` for row `abs`: each cell applied in turn; when the segment starts
/// at column 0 it stands for the whole row, so its tail is blanked.
pub open spec fn spec_apply_segment(v: RendererView, abs: int, cells: Seq<(usize, SeqNum, char, Option<u32>)>) -> RendererView {
    if cells.len() == 0 {
        v
    } else {
        let v1 = spec_apply_cells(v, abs, cells, cells.len() as int);
        if cells[0].0 == 0 && v1.rows[abs - v1.base_row] is Loaded {
            let last = cells.last();
            let width: nat = if exists|c: int| 0 <= c < cells.len() && (#[trigger] cells[c]).2 != ' ' {
                (last.0 + 1) as nat
            } else {
                0
            };
            spec_segment_tail(v1, abs, abs - v1.base_row, last.0 + 1, last.1, width)
        } else {
            v1
        }
    }
}

/// The renderer with absolute row `abs` marked unavailable, if it is held.
pub open spec fn spec_mark_row_missing(v: RendererView, abs: int) -> RendererView {
    match rel_index(v, abs) {
        Some(i) => if v.rows[i] is Missing {
            v
        } else {
            RendererView { rows: v.rows.update(i, SlotView::Missing), needs_redraw: true, ..v }
        },
        None => v,
    }
}

/// The renderer with absolute row `abs` marked requested: held rows become
/// pending; others are made held (pending).
pub open spec fn spec_mark_row_pending(v: RendererView, abs: int) -> RendererView {
    match rel_index(v, abs) {
        Some(i) => if v.rows[i] is Pending {
            v
        } else {
            RendererView { rows: v.rows.update(i, SlotView::Pending), needs_redraw: true, ..v }
        },
        None => {
            let t = spec_touch(v, abs);
            RendererView { rows: t.rows.update(abs - t.base_row, SlotView::Pending), needs_redraw: true, ..t }
        },
    }
}

/// A selection position moved down to row `base` if it lies above it.
pub open spec fn clamp_selection_row(p: SelectionPosition, base: u64) -> SelectionPosition {
    if p.row < base {
        SelectionPosition { row: base, ..p }
    } else {
        p
    }
}

/// The renderer after the host dropped history rows `start..start + count`:
/// the rows before the new first row are dropped (as many as are held), the
/// viewport stays on the same rows or follows the tail, predictions on
/// dropped rows go, and a selection lying wholly in dropped rows goes while
/// one reaching past them is cut to the new first row.
pub open spec fn spec_apply_trim(v: RendererView, start: int, count: int) -> RendererView {
    let new_base: int = if start + count <= u64::MAX {
        start + count
    } else {
        u64::MAX as int
    };
    if count == 0 || new_base <= v.base_row {
        v
    } else {
        let trim: nat = if new_base - v.base_row <= v.rows.len() {
            (new_base - v.base_row) as nat
        } else {
            v.rows.len()
        };
        if trim == 0 {
            v
        } else {
            let base = (v.base_row + trim) as u64;
            let v1 = RendererView {
                rows: v.rows.skip(trim as int),
                base_row: base,
                scroll_top: sat_sub(v.scroll_top as int, trim as int),
                ..v
            };
            let v2 = if v1.follow_tail {
                spec_scroll_to_tail(v1)
            } else {
                v1
            };
            RendererView {
                history_trimmed: true,
                predictions: Map::new(
                    |k: (u64, usize)| v2.predictions.contains_key(k) && k.0 >= base,
                    |k: (u64, usize)| v2.predictions[k],
                ),
                selection: match v.selection {
                    Some(range) => if range.anchor.row < base && range.head.row < base {
                        None
                    } else {
                        Some(
                            SelectionRange {
                                anchor: clamp_selection_row(range.anchor, base),
                                head: clamp_selection_row(range.head, base),
                                mode: range.mode,
                            },
                        )
                    },
                    None => None,
                },
                needs_redraw: true,
                ..v2
            }
        }
    }
}


/// The text width `w` pulled back over trailing spaces, but not below
/// column `col`.
pub open spec fn shrink_width(cells: Seq<CellState>, w: int, col: int) -> int
    decreases w,
{
    if w <= col || w <= 0 {
        w
    } else if w - 1 < cells.len() && cells[w - 1].ch != ' ' {
        w
    } else {
        shrink_width(cells, w - 1, col)
    }
}

/// Whether shrinking absolute row `abs` to column `col` pulls its text width
/// back.
pub open spec fn width_shrinks(v: RendererView, abs: int, col: int) -> bool {
    match rel_index(v, abs) {
        Some(i) => match v.rows[i] {
            SlotView::Loaded(r) => r.logical_width > col && shrink_width(r.cells, r.logical_width as int, col)
                < r.logical_width,
            _ => false,
        },
        None => false,
    }
}

/// The rows after shrinking absolute row `abs` to column `col`.
pub open spec fn shrunk_rows(v: RendererView, abs: int, col: int) -> Seq<SlotView> {
    if width_shrinks(v, abs, col) {
        let i = abs - v.base_row;
        let r = row_or_blank(v.rows[i], v.cols);
        v.rows.update(
            i,
            SlotView::Loaded(RowView { logical_width: shrink_width(r.cells, r.logical_width as int, col) as nat, ..r }),
        )
    } else {
        v.rows
    }
}

} // verus!

//! What the renderer shows: the character drawn for each cell, row texts and
//! widths, the selected text, the lines of the viewport, and the status line.

use vstd::prelude::*;
use vstd::string::StringExecFns;

use super::{
    opt_str, rel_index, GridRenderer, PredictedCell, RendererView, RowSlot, RowView, SelectionMode, SelectionPosition,
    SelectionRange, SlotView, StatusIndicator,
};
use crate::assoc::{assoc_map, keys_unique, lemma_assoc_finite, lemma_assoc_index};
use crate::cache::terminal::packed::Style;
use crate::text::string_from_chars;

verus! {

/// What is drawn for the cell at absolute row `abs`, column `col`: its
/// character, its style id, and whether it is a prediction. A shown
/// prediction wins; a pending row shows a middle dot; missing rows, rows not
/// held and columns past the row show a space.
pub open spec fn spec_cell_for_render(v: RendererView, abs: int, col: int) -> (char, Option<u32>, bool) {
    let key = (abs as u64, col as usize);
    if v.predictions_visible && v.predictions.contains_key(key) {
        (v.predictions[key].ch, None, true)
    } else {
        match rel_index(v, abs) {
            Some(i) => match v.rows[i] {
                SlotView::Loaded(r) => if col < r.cells.len() {
                    (r.cells[col].ch, r.cells[col].style_id, false)
                } else {
                    (' ', None, false)
                },
                SlotView::Pending => ('·', None, false),
                SlotView::Missing => (' ', None, false),
            },
            None => (' ', None, false),
        }
    }
}

/// One past the last column of `cells[0..n]` that is not a space, 0 when
/// all are spaces.
pub open spec fn text_end(cells: Seq<super::CellState>, n: int) -> nat
    decreases n,
{
    if n <= 0 {
        0
    } else if cells[n - 1].ch != ' ' {
        n as nat
    } else {
        text_end(cells, n - 1)
    }
}

/// The width of the text of absolute row `abs`: one past its last
/// non-space cell, 0 for rows not loaded.
pub open spec fn spec_row_display_width(v: RendererView, abs: int) -> nat {
    match rel_index(v, abs) {
        Some(i) => match v.rows[i] {
            SlotView::Loaded(r) => text_end(r.cells, r.cells.len() as int),
            _ => 0,
        },
        None => 0,
    }
}

/// The width of absolute row `row` counting predictions: the largest of
/// its logical and displayed widths and one past its rightmost prediction.
pub open spec fn spec_effective_row_width(v: RendererView, row: u64) -> nat {
    super::max_nat(
        super::max_nat(spec_logical_row_width(v, row as int), spec_row_display_width(v, row as int)),
        super::predictions::spec_predicted_row_width(v.predictions, row),
    )
}

/// The recorded text width of absolute row `abs`, 0 for rows not loaded.
pub open spec fn spec_logical_row_width(v: RendererView, abs: int) -> nat {
    match rel_index(v, abs) {
        Some(i) => match v.rows[i] {
            SlotView::Loaded(r) => r.logical_width,
            _ => 0,
        },
        None => 0,
    }
}

impl GridRenderer {
    /// What is drawn for the cell at absolute row `absolute_row`, column
    /// `col`: see `spec_cell_for_render`.
    pub fn cell_for_render(&self, absolute_row: u64, col: usize) -> (res: (char, Option<u32>, bool))
        requires
            self.wf(),
        ensures
            res == spec_cell_for_render(self@, absolute_row as int, col as int),
    {
        if self.predictions_visible {
            if let Some(i) = self.find_prediction((absolute_row, col)) {
                return (self.predictions[i].1.ch, None, true);
            }
        }
        match self.relative_row(absolute_row) {
            Some(rel) => match &self.rows[rel] {
                RowSlot::Loaded(state) => {
                    if col < state.cells.len() {
                        let cell = state.cells[col];
                        (cell.ch, cell.style_id, false)
                    } else {
                        (' ', None, false)
                    }
                },
                RowSlot::Pending => ('·', None, false),
                RowSlot::Missing => (' ', None, false),
            },
            None => (' ', None, false),
        }
    }

    /// The width of the text of absolute row `absolute_row`: one past its
    /// last non-space cell, 0 for rows not loaded.
    pub fn row_display_width(&self, absolute_row: u64) -> (res: usize)
        requires
            self.wf(),
        ensures
            res == spec_row_display_width(self@, absolute_row as int),
    {
        match self.relative_row(absolute_row) {
            Some(rel) => match &self.rows[rel] {
                RowSlot::Loaded(state) => text_end_of(&state.cells),
                _ => 0,
            },
            None => 0,
        }
    }


    /// The recorded text width of absolute row `absolute_row`, 0 for rows
    /// not loaded.
    pub(super) fn logical_row_width(&self, absolute_row: u64) -> (res: usize)
        requires
            self.wf(),
        ensures
            res == spec_logical_row_width(self@, absolute_row as int),
    {
        match self.relative_row(absolute_row) {
            Some(rel) => match &self.rows[rel] {
                RowSlot::Loaded(state) => state.logical_width,
                _ => 0,
            },
            None => 0,
        }
    }

    /// The width of the committed text of absolute row `absolute_row`: the
    /// larger of its recorded and its displayed width.
    pub fn committed_row_width(&self, absolute_row: u64) -> (res: usize)
        requires
            self.wf(),
        ensures
            res == super::max_nat(
                spec_logical_row_width(self@, absolute_row as int),
                spec_row_display_width(self@, absolute_row as int),
            ),
    {
        self.logical_row_width(absolute_row).max(self.row_display_width(absolute_row))
    }

    /// The width of absolute row `absolute_row` counting predictions: the
    /// larger of its committed width and one past its rightmost prediction.
    pub fn effective_row_width(&self, absolute_row: u64) -> (res: usize)
        requires
            self.wf(),
        ensures
            res >= spec_logical_row_width(self@, absolute_row as int),
            res >= spec_row_display_width(self@, absolute_row as int),
            forall|k: (u64, usize)| #[trigger] self@.predictions.contains_key(k) && k.0 == absolute_row ==> res
                >= super::predictions::col_end(k.1),
            res == spec_logical_row_width(self@, absolute_row as int) || res == spec_row_display_width(
                self@,
                absolute_row as int,
            ) || exists|k: (u64, usize)| #[trigger] self@.predictions.contains_key(k) && k.0 == absolute_row
                && super::predictions::col_end(k.1) == res,
            res == spec_effective_row_width(self@, absolute_row),
    {
        let committed = self.logical_row_width(absolute_row).max(self.row_display_width(absolute_row));
        let predicted = self.predicted_row_width(absolute_row);
        committed.max(predicted)
    }

    /// Whether the cell at (`row`, `col`) holds `ch`; cells not loaded count
    /// as spaces.
    pub fn cell_matches(&self, row: usize, col: usize, ch: char) -> (res: bool)
        requires
            self.wf(),
        ensures
            res == (match rel_index(self@, row as int) {
                Some(i) => match self@.rows[i] {
                    SlotView::Loaded(r) => if col < r.cells.len() {
                        r.cells[col as int].ch == ch
                    } else {
                        ch == ' '
                    },
                    _ => ch == ' ',
                },
                None => ch == ' ',
            }),
    {
        if let Some(rel) = self.relative_row(row as u64) {
            if let RowSlot::Loaded(state) = &self.rows[rel] {
                if col < state.cells.len() {
                    return state.cells[col].ch == ch;
                }
            }
        }
        ch == ' '
    }

    /// The text of absolute row `absolute_row`, every cell's character, when
    /// it is loaded.
    pub fn row_text(&self, absolute_row: u64) -> (res: Option<String>)
        requires
            self.wf(),
        ensures
            res matches Some(t) ==> (rel_index(self@, absolute_row as int) matches Some(i) && self@.rows[i] matches SlotView::Loaded(
                r,
            ) && t@ == r.cells.map_values(|c: super::CellState| c.ch)),
            res is None ==> !(rel_index(self@, absolute_row as int) matches Some(i) && self@.rows[i] is Loaded),
    {
        let rel = match self.relative_row(absolute_row) {
            Some(rel) => rel,
            None => return None,
        };
        match &self.rows[rel] {
            RowSlot::Loaded(state) => {
                let n = state.cells.len();
                let mut chars: Vec<char> = Vec::with_capacity(n);
                let mut i: usize = 0;
                while i < n
                    invariant
                        n == state.cells@.len(),
                        i <= n,
                        chars@ == state.cells@.take(i as int).map_values(|c: super::CellState| c.ch),
                    decreases n - i,
                {
                    chars.push(state.cells[i].ch);
                    proof {
                        assert(state.cells@.take(i + 1).map_values(|c: super::CellState| c.ch) =~= state.cells@.take(
                            i as int,
                        ).map_values(|c: super::CellState| c.ch).push(state.cells@[i as int].ch));
                    }
                    i = i + 1;
                }
                proof {
                    assert(state.cells@.take(n as int) =~= state.cells@);
                }
                Some(string_from_chars(chars))
            },
            _ => None,
        }
    }

    /// The text of absolute row `absolute_row` as drawn: its characters when
    /// loaded, middle dots when pending, spaces when missing; `None` when it
    /// is not held.
    pub fn row_text_for_test(&self, absolute_row: u64) -> (res: Option<String>)
        requires
            self.wf(),
        ensures
            res matches Some(t) ==> rel_index(self@, absolute_row as int) matches Some(i) && match self@.rows[i] {
                SlotView::Loaded(r) => t@ == r.cells.map_values(|c: super::CellState| c.ch),
                SlotView::Pending => t@ == Seq::new(self@.cols, |_k: int| '·'),
                SlotView::Missing => t@ == Seq::new(self@.cols, |_k: int| ' '),
            },
            res is None ==> rel_index(self@, absolute_row as int) is None,
    {
        if let Some(line) = self.row_text(absolute_row) {
            return Some(line);
        }
        let rel = match self.relative_row(absolute_row) {
            Some(rel) => rel,
            None => return None,
        };
        let fill = match &self.rows[rel] {
            RowSlot::Pending => '·',
            RowSlot::Missing => ' ',
            RowSlot::Loaded(_) => return None,
        };
        Some(string_from_chars(repeat_char(fill, self.cols)))
    }

    /// Whether some row is pending.
    pub fn has_pending_rows(&self) -> (res: bool)
        requires
            self.wf(),
        ensures
            res == exists|i: int| 0 <= i < self@.rows.len() && (#[trigger] self@.rows[i]) is Pending,
    {
        let n = self.rows.len();
        let mut i: usize = 0;
        while i < n
            invariant
                n == self@.rows.len(),
                i <= n,
                self@.rows == super::slots_view(self.rows@),
                forall|j: int| 0 <= j < i ==> !(#[trigger] self@.rows[j] is Pending),
            decreases n - i,
        {
            if let RowSlot::Pending = &self.rows[i] {
                assert(self@.rows[i as int] is Pending);
                return true;
            }
            i = i + 1;
        }
        false
    }

    /// Whether some row is missing.
    pub fn has_missing_rows(&self) -> (res: bool)
        requires
            self.wf(),
        ensures
            res == exists|i: int| 0 <= i < self@.rows.len() && (#[trigger] self@.rows[i]) is Missing,
    {
        let n = self.rows.len();
        let mut i: usize = 0;
        while i < n
            invariant
                n == self@.rows.len(),
                i <= n,
                self@.rows == super::slots_view(self.rows@),
                forall|j: int| 0 <= j < i ==> !(#[trigger] self@.rows[j] is Missing),
            decreases n - i,
        {
            if let RowSlot::Missing = &self.rows[i] {
                assert(self@.rows[i as int] is Missing);
                return true;
            }
            i = i + 1;
        }
        false
    }

    /// Selects from `anchor` to `head` in `mode`.
    pub fn set_selection(&mut self, anchor: SelectionPosition, head: SelectionPosition, mode: SelectionMode)
        requires
            old(self).wf(),
        ensures
            final(self).wf(),
            final(self)@ == (RendererView {
                selection: Some(SelectionRange { anchor, head, mode }),
                needs_redraw: true,
                ..old(self)@
            }),
    {
        self.selection = Some(SelectionRange::new(anchor, head, mode));
        self.needs_redraw = true;
    }

    /// Removes the selection.
    pub fn clear_selection(&mut self)
        requires
            old(self).wf(),
        ensures
            final(self).wf(),
            final(self)@ == spec_clear_selection(old(self)@),
            old(self)@.selection is Some ==> final(self)@ == (RendererView {
                selection: None,
                needs_redraw: true,
                ..old(self)@
            }),
            old(self)@.selection is None ==> final(self)@ == old(self)@,
    {
        if self.selection.is_some() {
            self.selection = None;
            self.needs_redraw = true;
        }
    }

    /// The selection.
    pub fn selection(&self) -> (res: Option<SelectionRange>)
        ensures
            res == self@.selection,
    {
        self.selection
    }

    fn set_status_internal(&mut self, message: Option<String>, highlight: Option<String>, error: bool)
        requires
            old(self).wf(),
        ensures
            final(self).wf(),
            final(self)@ == (RendererView {
                status_message: opt_str(message),
                status_highlight: if error {
                    None
                } else {
                    opt_str(highlight)
                },
                status_is_error: error && message is Some,
                needs_redraw: true,
                ..old(self)@
            }),
    {
        let has_message = message.is_some();
        self.status_message = message;
        if error {
            self.status_highlight = None;
        } else {
            self.status_highlight = highlight;
        }
        self.status_is_error = error && has_message;
        self.needs_redraw = true;
    }

    /// Shows `message` (or none) in the status line, without highlight.
    pub fn set_status_message(&mut self, message: Option<String>)
        requires
            old(self).wf(),
        ensures
            final(self).wf(),
            final(self)@ == (RendererView {
                status_message: opt_str(message),
                status_highlight: None,
                status_is_error: false,
                needs_redraw: true,
                ..old(self)@
            }),
    {
        self.set_status_internal(message, None, false);
    }

    /// Shows `message` (or none) in the status line as an error.
    pub fn set_status_error_message(&mut self, message: Option<String>)
        requires
            old(self).wf(),
        ensures
            final(self).wf(),
            final(self)@ == (RendererView {
                status_message: opt_str(message),
                status_highlight: None,
                status_is_error: message is Some,
                needs_redraw: true,
                ..old(self)@
            }),
    {
        self.set_status_internal(message, None, true);
    }

    /// Shows `message` (or none) in the status line with `highlight` (or
    /// none) emphasised after it.
    pub fn set_status_with_highlight(&mut self, message: Option<String>, highlight: Option<String>)
        requires
            old(self).wf(),
        ensures
            final(self).wf(),
            final(self)@ == (RendererView {
                status_message: opt_str(message),
                status_highlight: opt_str(highlight),
                status_is_error: false,
                needs_redraw: true,
                ..old(self)@
            }),
    {
        self.set_status_internal(message, highlight, false);
    }

    /// The status message and whether it is an error.
    pub fn status_for_test(&self) -> (res: (Option<String>, bool))
        ensures
            opt_str(res.0) == self@.status_message,
            res.1 == self@.status_is_error,
    {
        (self.status_message.clone(), self.status_is_error)
    }

    /// The status message.
    pub fn status_message(&self) -> (res: Option<String>)
        ensures
            opt_str(res) == self@.status_message,
    {
        self.status_message.clone()
    }

    /// The emphasised part of the status line.
    pub fn status_highlight(&self) -> (res: Option<String>)
        ensures
            opt_str(res) == self@.status_highlight,
    {
        self.status_highlight.clone()
    }

    /// Whether the status message is an error.
    pub fn status_is_error(&self) -> (res: bool)
        ensures
            res == self@.status_is_error,
    {
        self.status_is_error
    }

    /// Shows the connection indicator `text` in `style`.
    pub fn set_connection_status(&mut self, text: String, style: Style)
        requires
            old(self).wf(),
        ensures
            final(self).wf(),
            final(self)@ == (RendererView {
                connection_status: Some((text@, style)),
                needs_redraw: true,
                ..old(self)@
            }),
    {
        self.connection_status = Some(StatusIndicator { text, style });
        self.needs_redraw = true;
    }

    /// Removes the connection indicator.
    pub fn clear_connection_status(&mut self)
        requires
            old(self).wf(),
        ensures
            final(self).wf(),
            old(self)@.connection_status is Some ==> final(self)@ == (RendererView {
                connection_status: None,
                needs_redraw: true,
                ..old(self)@
            }),
            old(self)@.connection_status is None ==> final(self)@ == old(self)@,
    {
        if self.connection_status.is_some() {
            self.connection_status = None;
            self.needs_redraw = true;
        }
    }

    /// The connection indicator.
    pub fn connection_status(&self) -> (res: Option<StatusIndicator>)
        ensures
            res matches Some(c) ==> self@.connection_status == Some((c.text@, c.style)),
            res is None ==> self@.connection_status is None,
    {
        match &self.connection_status {
            Some(c) => Some(StatusIndicator { text: c.text.clone(), style: c.style }),
            None => None,
        }
    }

    /// Records style `id` as foreground `fg`, background `bg` and
    /// attributes `attrs`.
    pub fn set_style(&mut self, id: u32, fg: u32, bg: u32, attrs: u8)
        requires
            old(self).wf(),
        ensures
            final(self).wf(),
            final(self)@ == (RendererView {
                styles: old(self)@.styles.insert(id, Style { fg, bg, attrs }),
                needs_redraw: true,
                ..old(self)@
            }),
    {
        let style = Style { fg, bg, attrs };
        let ghost before = self.styles@;
        let n = self.styles.len();
        let mut j: usize = 0;
        while j < n
            invariant
                self.wf(),
                self.styles@ == before,
                old(self)@ == self@,
                style == (Style { fg, bg, attrs }),
                n == before.len(),
                j <= n,
                forall|x: int| 0 <= x < j ==> before[x].0 != id,
            decreases n - j,
        {
            if self.styles[j].0 == id {
                proof {
                    assert(before[j as int].0 == id);
                    crate::assoc::lemma_assoc_update(before, j as int, style);
                }
                self.styles.set(j, (id, style));
                proof {
                    assert(self.styles@ == before.update(j as int, (before[j as int].0, style)));
                }
                self.needs_redraw = true;
                return;
            }
            j = j + 1;
        }
        proof {
            if crate::assoc::has_key(before, id) {
                let x = choose|x: int| 0 <= x < before.len() && before[x].0 == id;
            }
            crate::assoc::lemma_assoc_push(before, id, style);
        }
        self.styles.push((id, style));
        self.needs_redraw = true;
    }

    /// The style recorded as `id`.
    pub fn style_for(&self, id: u32) -> (res: Option<Style>)
        requires
            self.wf(),
        ensures
            res == (if self@.styles.contains_key(id) {
                Some(self@.styles[id])
            } else {
                None
            }),
    {
        let n = self.styles.len();
        let mut j: usize = 0;
        while j < n
            invariant
                self.wf(),
                n == self.styles@.len(),
                j <= n,
                forall|x: int| 0 <= x < j ==> self.styles@[x].0 != id,
            decreases n - j,
        {
            if self.styles[j].0 == id {
                proof {
                    lemma_assoc_index(self.styles@, j as int);
                }
                return Some(self.styles[j].1);
            }
            j = j + 1;
        }
        None
    }

    /// Whether predictions are underlined.
    pub fn prediction_flagging(&self) -> (res: bool)
        ensures
            res == self@.prediction_flagging,
    {
        self.prediction_flagging
    }

    /// How many rows the status line reports as shown: the viewport height,
    /// at most the rows held.
    pub fn displayed_rows(&self) -> (res: usize)
        ensures
            res == (if self@.viewport_height <= self@.rows.len() {
                self@.viewport_height
            } else {
                self@.rows.len()
            }),
    {
        self.viewport_height.min(self.rows.len())
    }

    /// The plain part of the status line, `rows R • showing S • scroll T`
    /// with ` • message` when there is a message, and the emphasised part,
    /// ` • highlight`, unless the message is an error.
    pub fn status_line_texts(&self) -> (res: (String, Option<String>))
        requires
            self.wf(),
        ensures
            res.0@ == spec_status_line(self@),
            match res.1 {
                Some(h) => !self@.status_is_error && (self@.status_highlight matches Some(t) && h@ == " • "@ + t),
                None => self@.status_is_error || self@.status_highlight is None,
            },
    {
        let total = self.total_rows();
        let shown = self.displayed_rows();
        let top = self.viewport_top();
        let mut text = String::from_str("rows ");
        text.append(crate::text::decimal_string(total).as_str());
        text.append(" • showing ");
        text.append(crate::text::decimal_string(shown as u64).as_str());
        text.append(" • scroll ");
        text.append(crate::text::decimal_string(top).as_str());
        if let Some(message) = &self.status_message {
            text.append(" • ");
            text.append(message.as_str());
        }
        let highlight = if self.status_is_error {
            None
        } else {
            match &self.status_highlight {
                Some(h) => {
                    let mut t = String::from_str(" • ");
                    t.append(h.as_str());
                    Some(t)
                },
                None => None,
            }
        };
        (text, highlight)
    }
}

/// The plain part of the status line.
pub open spec fn spec_status_line(v: RendererView) -> Seq<char> {
    let shown: nat = if v.viewport_height <= v.rows.len() {
        v.viewport_height
    } else {
        v.rows.len()
    };
    let head = "rows "@ + crate::text::decimal((v.base_row + v.rows.len()) as nat) + " • showing "@
        + crate::text::decimal(shown) + " • scroll "@ + crate::text::decimal((v.base_row + v.scroll_top) as nat);
    match v.status_message {
        Some(m) => head + " • "@ + m,
        None => head,
    }
}

/// A text ends within its cells.
proof fn lemma_text_end_le(cells: Seq<super::CellState>, n: int)
    requires
        0 <= n,
    ensures
        text_end(cells, n) <= n,
    decreases n,
{
    if n > 0 {
        lemma_text_end_le(cells, n - 1);
    }
}

/// A row's displayed width is at most the grid's width.
proof fn lemma_display_width_bound(v: RendererView, abs: int)
    requires
        super::renderer_wf(v),
    ensures
        spec_row_display_width(v, abs) <= v.cols,
{
    match rel_index(v, abs) {
        Some(i) => match v.rows[i] {
            SlotView::Loaded(r) => {
                assert(v.rows[i] matches SlotView::Loaded(r2) ==> r2.cells.len() == v.cols);
                lemma_text_end_le(r.cells, r.cells.len() as int);
            },
            _ => {},
        },
        None => {},
    }
}

/// One past the last cell of `cells` that is not a space, 0 when all are.
fn text_end_of(cells: &Vec<super::CellState>) -> (res: usize)
    ensures
        res == text_end(cells@, cells@.len() as int),
{
    let mut n = cells.len();
    while n > 0
        invariant
            n <= cells@.len(),
            text_end(cells@, n as int) == text_end(cells@, cells@.len() as int),
        decreases n,
    {
        if cells[n - 1].ch != ' ' {
            return n;
        }
        n = n - 1;
    }
    0
}

/// `n` copies of `c`.
pub fn repeat_char(c: char, n: usize) -> (res: Vec<char>)
    ensures
        res@ == Seq::new(n as nat, |_k: int| c),
{
    let mut v: Vec<char> = Vec::with_capacity(n);
    let mut i: usize = 0;
    while i < n
        invariant
            i <= n,
            v@ == Seq::new(i as nat, |_k: int| c),
        decreases n - i,
    {
        v.push(c);
        proof {
            assert(Seq::new((i + 1) as nat, |_k: int| c) =~= Seq::new(i as nat, |_k: int| c).push(c));
        }
        i = i + 1;
    }
    v
}


/// The characters drawn for columns `from..=to` of absolute row `row`.
pub open spec fn render_chars(v: RendererView, row: int, from: int, to: int) -> Seq<char> {
    if to >= from {
        Seq::new((to - from + 1) as nat, |k: int| spec_cell_for_render(v, row, from + k).0)
    } else {
        Seq::empty()
    }
}

/// `s` followed by a line break unless `row` is the last one.
pub open spec fn with_newline(s: Seq<char>, row: int, last_row: int) -> Seq<char> {
    if row != last_row {
        s.push('\n')
    } else {
        s
    }
}

/// The smaller of two integers.
pub open spec fn min_int(a: int, b: int) -> int {
    if a <= b {
        a
    } else {
        b
    }
}

/// The larger of two integers.
pub open spec fn max_int(a: int, b: int) -> int {
    if a >= b {
        a
    } else {
        b
    }
}

/// The first and last row of a selection.
pub open spec fn sel_rows(range: SelectionRange) -> (int, int) {
    (min_int(range.anchor.row as int, range.head.row as int), max_int(range.anchor.row as int, range.head.row as int))
}

/// The text a selection takes from absolute row `r`: in character mode the
/// columns between the ends (whole rows in between), in line mode the row's
/// text, in block mode the columns between the ends' columns; columns are
/// clamped to the grid, and every row but the last ends in a line break.
pub open spec fn row_part(v: RendererView, range: SelectionRange, r: int) -> Seq<char> {
    let last_col = v.cols - 1;
    let (min_row, max_row) = sel_rows(range);
    match range.mode {
        SelectionMode::Character => {
            let (start, end) = if super::position_le(range.anchor, range.head) {
                (range.anchor, range.head)
            } else {
                (range.head, range.anchor)
            };
            let from = min_int(
                if r == start.row {
                    start.col as int
                } else {
                    0
                },
                last_col,
            );
            let to = min_int(
                if r == end.row {
                    end.col as int
                } else {
                    last_col
                },
                last_col,
            );
            with_newline(render_chars(v, r, from, to), r, max_row)
        },
        SelectionMode::Line => with_newline(
            render_chars(v, r, 0, spec_row_display_width(v, r) - 1),
            r,
            max_row,
        ),
        SelectionMode::Block => with_newline(
            render_chars(
                v,
                r,
                min_int(min_int(range.anchor.col as int, range.head.col as int), last_col),
                min_int(max_int(range.anchor.col as int, range.head.col as int), last_col),
            ),
            r,
            max_row,
        ),
    }
}

/// The selection's text from rows `lo..=hi`.
pub open spec fn concat_parts(v: RendererView, range: SelectionRange, lo: int, hi: int) -> Seq<char>
    decreases hi - lo + 1,
{
    if hi < lo {
        Seq::empty()
    } else {
        concat_parts(v, range, lo, hi - 1) + row_part(v, range, hi)
    }
}

/// The selected text: the parts of the held rows the selection covers;
/// none without a selection, rows, or when the selection lies wholly above
/// the rows held.
pub open spec fn spec_selection_text(v: RendererView) -> Option<Seq<char>> {
    match v.selection {
        None => None,
        Some(range) => {
            let (min_row, max_row) = sel_rows(range);
            if v.rows.len() == 0 || max_row < v.base_row {
                None
            } else {
                Some(
                    concat_parts(
                        v,
                        range,
                        max_int(min_row, v.base_row as int),
                        min_int(max_row, v.base_row + v.rows.len() - 1),
                    ),
                )
            }
        },
    }
}

impl GridRenderer {
    /// Appends the characters drawn for columns `from..=to` of absolute row
    /// `row`.
    fn push_render_chars(&self, row: u64, from: usize, to: usize, out: &mut Vec<char>)
        requires
            self.wf(),
            to < usize::MAX,
        ensures
            final(out)@ == old(out)@ + render_chars(self@, row as int, from as int, to as int),
    {
        let ghost start = out@;
        if to < from {
            proof {
                assert(out@ =~= start + render_chars(self@, row as int, from as int, to as int));
            }
            return;
        }
        let mut c = from;
        while c <= to
            invariant
                self.wf(),
                to < usize::MAX,
                from <= c <= to + 1,
                out@ == start + Seq::new((c - from) as nat, |k: int| spec_cell_for_render(self@, row as int, from + k).0),
            decreases to + 1 - c,
        {
            let (ch, _, _) = self.cell_for_render(row, c);
            out.push(ch);
            proof {
                assert(start + Seq::new((c + 1 - from) as nat, |k: int| spec_cell_for_render(self@, row as int, from + k).0)
                    =~= (start + Seq::new((c - from) as nat, |k: int| spec_cell_for_render(self@, row as int, from + k).0)).push(ch));
            }
            c = c + 1;
        }
        proof {
            assert(out@ =~= start + render_chars(self@, row as int, from as int, to as int));
        }
    }

    /// Appends the text the selection `range` takes from absolute row `r`.
    fn push_row_part(&self, range: SelectionRange, r: u64, out: &mut Vec<char>)
        requires
            self.wf(),
        ensures
            final(out)@ == old(out)@ + row_part(self@, range, r as int),
    {
        let ghost start = out@;
        let last_col = self.cols - 1;
        let (min_row, max_row) = range.row_bounds();
        match range.mode {
            SelectionMode::Character => {
                let (s, e) = range.ordered_positions();
                let from = (if r == s.row {
                    s.col
                } else {
                    0
                }).min(last_col);
                let to = (if r == e.row {
                    e.col
                } else {
                    last_col
                }).min(last_col);
                self.push_render_chars(r, from, to, out);
            },
            SelectionMode::Line => {
                let width = self.row_display_width(r);
                if width > 0 {
                    self.push_render_chars(r, 0, width - 1, out);
                } else {
                    proof {
                        assert(render_chars(self@, r as int, 0, -1) =~= Seq::<char>::empty());
                        assert(out@ =~= start + render_chars(self@, r as int, 0, -1));
                    }
                }
            },
            SelectionMode::Block => {
                let (min_col, max_col) = range.block_col_bounds();
                self.push_render_chars(r, min_col.min(last_col), max_col.min(last_col), out);
            },
        }
        if r != max_row {
            out.push('\n');
        }
        proof {
            assert(out@ =~= start + row_part(self@, range, r as int));
        }
    }

    /// The selected text: see `spec_selection_text`.
    pub fn selection_text(&self) -> (res: Option<String>)
        requires
            self.wf(),
        ensures
            res matches Some(t) ==> spec_selection_text(self@) == Some(t@),
            res is None ==> spec_selection_text(self@) is None,
    {
        let range = match self.selection {
            Some(r) => r,
            None => return None,
        };
        if self.rows.len() == 0 {
            return None;
        }
        let (min_row, max_row) = range.row_bounds();
        if max_row < self.base_row {
            return None;
        }
        let lo = if min_row >= self.base_row {
            min_row
        } else {
            self.base_row
        };
        let last_held = self.base_row + (self.rows.len() as u64 - 1);
        let hi = if max_row <= last_held {
            max_row
        } else {
            last_held
        };
        let mut out: Vec<char> = Vec::new();
        let mut r = lo;
        proof {
            assert(out@ =~= concat_parts(self@, range, lo as int, lo - 1));
        }
        while r <= hi
            invariant
                self.wf(),
                lo <= r,
                r <= hi + 1 || r == lo,
                hi < u64::MAX,
                out@ == concat_parts(self@, range, lo as int, r - 1),
            decreases hi + 1 - r,
        {
            self.push_row_part(range, r, &mut out);
            r = r + 1;
        }
        Some(string_from_chars(out))
    }
}


/// What a line of the viewport shows.
#[derive(Clone, Copy, Debug, PartialEq, Eq, Structural)]
pub enum LineKind {
    /// A row not held.
    Absent,
    /// A row requested and not received.
    Pending,
    /// A row known to be unavailable.
    Missing,
    /// A received row.
    Loaded,
}

/// A line of the viewport: the absolute row it shows, and what it shows.
#[derive(Clone, Copy, Debug, PartialEq, Eq, Structural)]
pub struct LayoutLine {
    pub absolute: u64,
    pub kind: LineKind,
}

/// What absolute row `abs` shows.
pub open spec fn spec_line_kind(v: RendererView, abs: int) -> LineKind {
    match rel_index(v, abs) {
        Some(i) => match v.rows[i] {
            SlotView::Pending => LineKind::Pending,
            SlotView::Missing => LineKind::Missing,
            SlotView::Loaded(_) => LineKind::Loaded,
        },
        None => LineKind::Absent,
    }
}

/// The number of lines of the viewport (at least one).
pub open spec fn view_height(v: RendererView) -> nat {
    if v.viewport_height >= 1 {
        v.viewport_height
    } else {
        1
    }
}

/// The absolute row shown on line `k` of the viewport.
pub open spec fn layout_abs(v: RendererView, k: int) -> int {
    v.base_row + v.scroll_top + k
}

/// Whether the tail view drops unreceived rows at its bottom: when it
/// follows the tail and history exists above.
pub open spec fn trims_tail(v: RendererView) -> bool {
    v.follow_tail && (v.base_row > 0 || v.scroll_top > 0 || v.history_trimmed)
}

/// The first `n` lines without the unreceived ones at their end.
pub open spec fn kept_lines(v: RendererView, n: int) -> nat
    decreases n,
{
    if n <= 0 {
        0
    } else if spec_line_kind(v, layout_abs(v, n - 1)) == LineKind::Loaded {
        n as nat
    } else {
        kept_lines(v, n - 1)
    }
}

/// The number of lines the viewport shows rows on; the rest, above them,
/// are blank.
pub open spec fn layout_len(v: RendererView) -> nat {
    if trims_tail(v) {
        kept_lines(v, view_height(v) as int)
    } else {
        view_height(v)
    }
}

/// `x`, or `u64::MAX` when larger.
pub open spec fn sat_u64(x: int) -> u64 {
    if x <= u64::MAX {
        x as u64
    } else {
        u64::MAX
    }
}

/// The lines of the viewport that show rows, in order.
pub open spec fn spec_layout_lines(v: RendererView) -> Seq<LayoutLine> {
    Seq::new(
        layout_len(v),
        |k: int| LayoutLine { absolute: sat_u64(layout_abs(v, k)), kind: spec_line_kind(v, layout_abs(v, k)) },
    )
}

/// The text of a viewport line: middle dots for a pending row, spaces for a
/// missing one, the drawn characters of a received one, nothing for a row
/// not held.
pub open spec fn line_text(v: RendererView, line: LayoutLine) -> Seq<char> {
    match line.kind {
        LineKind::Pending => Seq::new(v.cols, |_k: int| '·'),
        LineKind::Missing => Seq::new(v.cols, |_k: int| ' '),
        LineKind::Loaded => render_chars(v, line.absolute as int, 0, v.cols - 1),
        LineKind::Absent => Seq::empty(),
    }
}

/// The texts of the viewport's lines: blank lines first, then the lines
/// showing rows.
pub open spec fn spec_visible_lines(v: RendererView) -> Seq<Seq<char>> {
    Seq::new((view_height(v) - layout_len(v)) as nat, |_k: int| Seq::new(v.cols, |_j: int| ' ')) + spec_layout_lines(
        v,
    ).map_values(|l: LayoutLine| line_text(v, l))
}

/// Whether absolute row `r` is held and counts for a run: any row not
/// received when `any_unloaded`, else only pending rows.
pub open spec fn hits(v: RendererView, r: int, any_unloaded: bool) -> bool {
    match rel_index(v, r) {
        Some(i) => if any_unloaded {
            !(v.rows[i] is Loaded)
        } else {
            v.rows[i] is Pending
        },
        None => false,
    }
}

/// The length of the run of hits from row `r`, before row `hi`.
pub open spec fn run_len(v: RendererView, r: int, hi: int, any_unloaded: bool) -> nat
    decreases hi - r,
{
    if r >= hi || !hits(v, r, any_unloaded) {
        0
    } else {
        1 + run_len(v, r + 1, hi, any_unloaded)
    }
}

/// The first run of hits in rows `lo..hi`: its first row and length.
pub open spec fn first_run(v: RendererView, lo: int, hi: int, any_unloaded: bool) -> Option<(int, nat)>
    decreases hi - lo,
{
    if lo >= hi {
        None
    } else if hits(v, lo, any_unloaded) {
        Some((lo, run_len(v, lo, hi, any_unloaded)))
    } else {
        first_run(v, lo + 1, hi, any_unloaded)
    }
}

/// A run as (first row, length), the length capped at `u32::MAX`.
pub open spec fn run_result(run: Option<(int, nat)>) -> Option<(u64, u32)> {
    match run {
        Some((p, n)) => Some((p as u64, if n <= u32::MAX {
            n as u32
        } else {
            u32::MAX
        })),
        None => None,
    }
}

impl GridRenderer {
    /// The lines of the viewport that show rows: see `spec_layout_lines`;
    /// returns the number of blank lines above them too.
    pub fn visible_layout(&self) -> (res: (usize, Vec<LayoutLine>))
        requires
            self.wf(),
        ensures
            res.0 == view_height(self@) - layout_len(self@),
            res.1@ == spec_layout_lines(self@),
    {
        let height = self.viewport_height.max(1);
        let top = self.base_row + self.scroll_top as u64;
        let mut lines: Vec<LayoutLine> = Vec::with_capacity(height);
        let mut k: usize = 0;
        while k < height
            invariant
                self.wf(),
                height == view_height(self@),
                top == self@.base_row + self@.scroll_top,
                k <= height,
                lines@ == Seq::new(
                    k as nat,
                    |j: int| LayoutLine { absolute: sat_u64(layout_abs(self@, j)), kind: spec_line_kind(self@, layout_abs(self@, j)) },
                ),
            decreases height - k,
        {
            let absolute = top.saturating_add(k as u64);
            let kind = match self.relative_row(absolute) {
                Some(rel) => match &self.rows[rel] {
                    RowSlot::Pending => LineKind::Pending,
                    RowSlot::Missing => LineKind::Missing,
                    RowSlot::Loaded(_) => LineKind::Loaded,
                },
                None => LineKind::Absent,
            };
            proof {
                assert(absolute == sat_u64(layout_abs(self@, k as int)));
                if layout_abs(self@, k as int) > u64::MAX {
                    assert(rel_index(self@, absolute as int) is None);
                    assert(rel_index(self@, layout_abs(self@, k as int)) is None);
                }
                assert(kind == spec_line_kind(self@, layout_abs(self@, k as int)));
            }
            lines.push(LayoutLine { absolute, kind });
            proof {
                assert(lines@ =~= Seq::new(
                    (k + 1) as nat,
                    |j: int| LayoutLine { absolute: sat_u64(layout_abs(self@, j)), kind: spec_line_kind(self@, layout_abs(self@, j)) },
                ));
            }
            k = k + 1;
        }
        if self.follow_tail && (self.base_row > 0 || self.scroll_top > 0 || self.history_trimmed) {
            while lines.len() > 0 && lines[lines.len() - 1].kind != LineKind::Loaded
                invariant
                    self.wf(),
                    height == view_height(self@),
                    lines@.len() <= height,
                    kept_lines(self@, lines@.len() as int) == kept_lines(self@, height as int),
                    lines@ == Seq::new(
                        lines@.len(),
                        |j: int| LayoutLine { absolute: sat_u64(layout_abs(self@, j)), kind: spec_line_kind(self@, layout_abs(self@, j)) },
                    ),
                decreases lines@.len(),
            {
                let ghost before = lines@;
                lines.pop();
                proof {
                    assert(lines@ =~= Seq::new(
                        lines@.len(),
                        |j: int| LayoutLine { absolute: sat_u64(layout_abs(self@, j)), kind: spec_line_kind(self@, layout_abs(self@, j)) },
                    ));
                }
            }
            proof {
                assert(lines@.len() == kept_lines(self@, height as int));
            }
        }
        proof {
            assert(lines@ =~= spec_layout_lines(self@));
        }
        (height - lines.len(), lines)
    }

    /// The text of the viewport's lines: see `spec_visible_lines`.
    pub fn visible_lines(&self) -> (res: Vec<String>)
        requires
            self.wf(),
        ensures
            res@.map_values(|s: String| s@) == spec_visible_lines(self@),
    {
        let (blanks, layout) = self.visible_layout();
        let cols = self.cols;
        let ghost want = spec_visible_lines(self@);
        let mut lines: Vec<String> = Vec::new();
        let mut b: usize = 0;
        while b < blanks
            invariant
                self.wf(),
                cols == self@.cols,
                b <= blanks,
                blanks == view_height(self@) - layout_len(self@),
                lines@.len() == b,
                forall|j: int| 0 <= j < b ==> (#[trigger] lines@[j])@ == Seq::new(self@.cols, |_k: int| ' '),
            decreases blanks - b,
        {
            lines.push(string_from_chars(repeat_char(' ', cols)));
            b = b + 1;
        }
        let n = layout.len();
        let mut k: usize = 0;
        while k < n
            invariant
                self.wf(),
                cols == self@.cols,
                blanks == view_height(self@) - layout_len(self@),
                layout@ == spec_layout_lines(self@),
                n == layout@.len(),
                k <= n,
                lines@.len() == blanks + k,
                forall|j: int| 0 <= j < blanks ==> (#[trigger] lines@[j])@ == Seq::new(self@.cols, |_k: int| ' '),
                forall|j: int| 0 <= j < k ==> (#[trigger] lines@[blanks + j])@ == line_text(self@, layout@[j]),
            decreases n - k,
        {
            let line = layout[k];
            let text = match line.kind {
                LineKind::Pending => repeat_char('·', cols),
                LineKind::Missing => repeat_char(' ', cols),
                LineKind::Loaded => {
                    let mut out: Vec<char> = Vec::new();
                    self.push_render_chars(line.absolute, 0, cols - 1, &mut out);
                    proof {
                        assert(out@ =~= render_chars(self@, line.absolute as int, 0, self@.cols - 1));
                    }
                    out
                },
                LineKind::Absent => Vec::new(),
            };
            proof {
                assert(text@ =~= line_text(self@, line));
            }
            lines.push(string_from_chars(text));
            k = k + 1;
        }
        proof {
            let got = lines@.map_values(|s: String| s@);
            assert forall|j: int| 0 <= j < got.len() implies got[j] == want[j] by {
                if j < blanks {
                } else {
                    assert(lines@[blanks + (j - blanks)] == lines@[j]);
                }
            }
            assert(got =~= want);
        }
        lines
    }

    /// The first run of hit rows in rows `lo..hi`, all held.
    fn find_run(&self, lo: u64, hi: u64, any_unloaded: bool) -> (res: Option<(u64, u32)>)
        requires
            self.wf(),
        ensures
            res == run_result(first_run(self@, lo as int, hi as int, any_unloaded)),
    {
        let mut r = lo;
        while r < hi
            invariant
                self.wf(),
                lo <= r,
                r <= hi || r == lo,
                first_run(self@, lo as int, hi as int, any_unloaded) == first_run(self@, r as int, hi as int, any_unloaded),
            decreases hi - r,
        {
            if self.row_hits(r, any_unloaded) {
                let start = r;
                let mut count: u32 = 0;
                let mut q = r;
                while q < hi && self.row_hits(q, any_unloaded)
                    invariant
                        self.wf(),
                        start <= q <= hi,
                        hits(self@, start as int, any_unloaded),
                        run_len(self@, start as int, hi as int, any_unloaded) == (q - start) + run_len(
                            self@,
                            q as int,
                            hi as int,
                            any_unloaded,
                        ),
                        count == (if q - start <= u32::MAX {
                            (q - start) as u32
                        } else {
                            u32::MAX
                        }),
                    decreases hi - q,
                {
                    count = count.saturating_add(1);
                    q = q + 1;
                }
                return Some((start, count));
            }
            r = r + 1;
        }
        None
    }

    /// Whether absolute row `r` is held and counts for a run.
    fn row_hits(&self, r: u64, any_unloaded: bool) -> (res: bool)
        requires
            self.wf(),
        ensures
            res == hits(self@, r as int, any_unloaded),
    {
        match self.relative_row(r) {
            Some(rel) => match &self.rows[rel] {
                RowSlot::Loaded(_) => false,
                RowSlot::Pending => true,
                RowSlot::Missing => any_unloaded,
            },
            None => false,
        }
    }

    /// The first run of pending rows among absolute rows `start..end` (from
    /// the first row held when `start` lies above it): its first row and
    /// length.
    pub fn first_gap_between(&self, start: u64, end: u64) -> (res: Option<(u64, u32)>)
        requires
            self.wf(),
        ensures
            res == spec_first_gap_between(self@, start as int, end as int),
            start >= end ==> res is None,
            start < end ==> {
                let lo = max_int(start as int, self@.base_row as int);
                let hi = min_int(max_int(end as int, lo + 1), self@.base_row + self@.rows.len());
                res == run_result(first_run(self@, lo, hi, false))
            },
    {
        if start >= end {
            return None;
        }
        let lo = if start >= self.base_row {
            start
        } else {
            self.base_row
        };
        let held_end = self.base_row + self.rows.len() as u64;
        if lo >= held_end {
            return None;
        }
        let upper = if end > lo {
            end
        } else {
            lo + 1
        };
        let hi = if upper <= held_end {
            upper
        } else {
            held_end
        };
        self.find_run(lo, hi, false)
    }

    /// The first run of rows not received around the viewport, looking
    /// `lookaround` rows above and below it: its first row and length.
    pub fn first_unloaded_range(&self, lookaround: usize) -> (res: Option<(u64, u32)>)
        requires
            self.wf(),
        ensures
            res == spec_first_unloaded_range(self@, lookaround as int),
            self@.rows.len() == 0 ==> res is None,
            self@.rows.len() > 0 ==> {
                let first_visible = self@.base_row + self@.scroll_top;
                let start = if first_visible >= lookaround {
                    first_visible - lookaround
                } else {
                    0
                };
                let span = min_int(self@.viewport_height + 2 * lookaround, usize::MAX as int);
                let last = min_int(start + span, u64::MAX as int);
                let lo = max_int(start, self@.base_row as int);
                let hi = min_int(last + 1, self@.base_row + self@.rows.len());
                res == run_result(first_run(self@, lo, hi, true))
            },
    {
        if self.rows.len() == 0 {
            return None;
        }
        let first_visible = self.base_row + self.scroll_top as u64;
        let start = first_visible.saturating_sub(lookaround as u64);
        let mut span = self.viewport_height;
        span = span.saturating_add(lookaround);
        span = span.saturating_add(lookaround);
        let last = start.saturating_add(span as u64);
        let lo = if start >= self.base_row {
            start
        } else {
            self.base_row
        };
        let held_end = self.base_row + self.rows.len() as u64;
        let hi = if last < held_end {
            last + 1
        } else {
            held_end
        };
        self.find_run(lo, hi, true)
    }

    /// The position nearest to (`row`, `col`) on the text held: the row
    /// clamped to the rows held, the column to the row's text (column 0 on
    /// an empty row). With no rows, the first row's column 0.
    pub fn clamp_position(&self, row: i64, col: isize) -> (res: SelectionPosition)
        requires
            self.wf(),
            self@.cols <= isize::MAX,
        ensures
            res == spec_clamp_position(self@, row as int, col as int),
            self@.rows.len() == 0 ==> res == (SelectionPosition { row: self@.base_row, col: 0 }),
            self@.rows.len() > 0 ==> {
                let min_row = min_int(self@.base_row as int, i64::MAX as int);
                let max_row = min_int(self@.base_row + self@.rows.len() - 1, i64::MAX as int);
                let r = if row < min_row {
                    min_row
                } else if row > max_row {
                    max_row
                } else {
                    row as int
                };
                let w = spec_row_display_width(self@, r);
                let max_col = if w == 0 {
                    0
                } else {
                    w - 1
                };
                let c = if col < 0 {
                    0
                } else if col > max_col {
                    max_col
                } else {
                    col as int
                };
                res == (SelectionPosition { row: r as u64, col: c as usize })
            },
    {
        if self.rows.len() == 0 {
            return SelectionPosition { row: self.base_row, col: 0 };
        }
        let imax = i64::MAX as u64;
        let min_row: i64 = if self.base_row <= imax {
            self.base_row as i64
        } else {
            i64::MAX
        };
        let last = self.base_row + (self.rows.len() as u64 - 1);
        let max_row: i64 = if last <= imax {
            last as i64
        } else {
            i64::MAX
        };
        let clamped: i64 = if row < min_row {
            min_row
        } else if row > max_row {
            max_row
        } else {
            row
        };
        let absolute_row = clamped as u64;
        let row_width = self.row_display_width(absolute_row);
        proof {
            lemma_display_width_bound(self@, absolute_row as int);
        }
        let max_col: isize = if row_width == 0 {
            0
        } else {
            (row_width - 1) as isize
        };
        let clamped_col: isize = if col < 0 {
            0
        } else if col > max_col {
            max_col
        } else {
            col
        };
        SelectionPosition { row: absolute_row, col: clamped_col as usize }
    }

    /// The column the cursor highlights on absolute row `absolute_row`, when
    /// it is shown there (clamped to the last column).
    pub fn cursor_col_for_row(&self, absolute_row: u64) -> (res: Option<usize>)
        requires
            self.wf(),
        ensures
            res == (match self@.cursor {
                Some(c) => if c.visible && c.absolute_row == absolute_row {
                    Some(
                        if c.col <= self@.cols - 1 {
                            c.col
                        } else {
                            (self@.cols - 1) as usize
                        },
                    )
                } else {
                    None
                },
                None => None,
            }),
    {
        match self.cursor {
            Some(c) => {
                if c.visible && c.absolute_row == absolute_row {
                    Some(c.col.min(self.cols - 1))
                } else {
                    None
                }
            },
            None => None,
        }
    }

    /// How the cell at column `col` of absolute row `absolute_row` of a
    /// loaded row is drawn: its character and style (a prediction in place
    /// of the cell when shown), underlined when it is a prediction and
    /// predictions are flagged, selection colours when selected, and the
    /// cursor highlight on the cursor's column.
    pub fn cell_appearance(&self, absolute_row: u64, col: usize) -> (res: CellAppearance)
        requires
            self.wf(),
        ensures
            ({
                let (ch, style_id, predicted) = spec_cell_for_render(self@, absolute_row as int, col as int);
                let pos = SelectionPosition { row: absolute_row, col };
                &&& res.ch == ch
                &&& res.style_id == style_id
                &&& res.underlined == (predicted && self@.prediction_flagging)
                &&& res.selected == (match self@.selection {
                    Some(s) => super::spec_selection_contains(s.anchor, s.head, s.mode, pos),
                    None => false,
                })
                &&& res.cursor == (match self@.cursor {
                    Some(c) => c.visible && c.absolute_row == absolute_row && col == (if c.col <= self@.cols - 1 {
                        c.col
                    } else {
                        (self@.cols - 1) as usize
                    }),
                    None => false,
                })
            }),
    {
        let (ch, style_id, predicted) = self.cell_for_render(absolute_row, col);
        let selected = match &self.selection {
            Some(sel) => sel.contains(SelectionPosition { row: absolute_row, col }),
            None => false,
        };
        let cursor = match self.cursor_col_for_row(absolute_row) {
            Some(c) => c == col,
            None => false,
        };
        CellAppearance { ch, style_id, underlined: predicted && self.prediction_flagging, selected, cursor }
    }
}

/// How one cell of the body is drawn: its character and style id, and
/// whether it is underlined (a flagged prediction), shown selected, or
/// highlighted as the cursor.
#[derive(Clone, Copy, Debug, PartialEq, Eq, Structural)]
pub struct CellAppearance {
    pub ch: char,
    pub style_id: Option<u32>,
    pub underlined: bool,
    pub selected: bool,
    pub cursor: bool,
}


/// The position nearest to (`row`, `col`) on the text held (see
/// `GridRenderer::clamp_position`).
pub open spec fn spec_clamp_position(v: RendererView, row: int, col: int) -> SelectionPosition {
    if v.rows.len() == 0 {
        SelectionPosition { row: v.base_row, col: 0 }
    } else {
        let min_row = min_int(v.base_row as int, i64::MAX as int);
        let max_row = min_int(v.base_row + v.rows.len() - 1, i64::MAX as int);
        let r = if row < min_row {
            min_row
        } else if row > max_row {
            max_row
        } else {
            row
        };
        let w = spec_row_display_width(v, r);
        let max_col = if w == 0 {
            0
        } else {
            w - 1
        };
        let c = if col < 0 {
            0
        } else if col > max_col {
            max_col
        } else {
            col
        };
        SelectionPosition { row: r as u64, col: c as usize }
    }
}

/// The renderer without a selection.
pub open spec fn spec_clear_selection(v: RendererView) -> RendererView {
    if v.selection is Some {
        RendererView { selection: None, needs_redraw: true, ..v }
    } else {
        v
    }
}

/// The first run of pending rows among absolute rows `start..end` (see
/// `GridRenderer::first_gap_between`).
pub open spec fn spec_first_gap_between(v: RendererView, start: int, end: int) -> Option<(u64, u32)> {
    if start >= end {
        None
    } else {
        let lo = max_int(start, v.base_row as int);
        let hi = min_int(max_int(end, lo + 1), v.base_row + v.rows.len());
        run_result(first_run(v, lo, hi, false))
    }
}

/// The first run of rows not received around the viewport (see
/// `GridRenderer::first_unloaded_range`).
pub open spec fn spec_first_unloaded_range(v: RendererView, lookaround: int) -> Option<(u64, u32)> {
    if v.rows.len() == 0 {
        None
    } else {
        let first_visible = v.base_row + v.scroll_top;
        let start = if first_visible >= lookaround {
            first_visible - lookaround
        } else {
            0
        };
        let span = min_int(v.viewport_height + 2 * lookaround, usize::MAX as int);
        let last = min_int(start + span, u64::MAX as int);
        let lo = max_int(start, v.base_row as int);
        let hi = min_int(last + 1, v.base_row + v.rows.len());
        run_result(first_run(v, lo, hi, true))
    }
}
} // verus!

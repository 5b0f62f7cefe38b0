//! Rows of the renderer: which absolute rows it holds and how updates from
//! the host land in them.

use vstd::prelude::*;

use super::predictions::{filter_drops_some, filtered, PredictionFilter};
use super::{
    shrink_width, shrunk_rows, width_shrinks, clamp_selection_row, rect_logical_width, rect_written, spec_apply_cells, spec_apply_segment, spec_apply_trim,
    spec_mark_row_missing, spec_mark_row_pending, spec_rect_row, spec_rect_rows, spec_segment_tail, tail_written,
    SelectionRange, max_nat, max_seq, all_spaces, drop_predictions, row_cell_after, row_written, spec_apply_row, spec_write_row, text_cells,
    PredictedCell, blank_row, pending_rows, rel_index, row_or_blank, rows_fit, sat_sub, slots_view, spec_apply_cell,
    spec_clear_prediction, spec_ensure_cols, spec_extend_rows, spec_scroll_to_tail, spec_set_base_row, spec_touch,
    spec_write_cell, widen_row, widen_slot, CellState, GridRenderer, GridUpdateDebugContext, RendererView, RowSlot,
    RowState, RowView, SlotView,
};
use crate::assoc::{assoc_map, keys_unique};
use crate::cache::terminal::packed::{spec_default_style, Style};

verus! {

/// A pending slot's view.
proof fn lemma_slots_push(rows: Seq<RowSlot>, s: RowSlot)
    ensures
        slots_view(rows.push(s)) == slots_view(rows).push(s@),
{
    assert(slots_view(rows.push(s)) =~= slots_view(rows).push(s@));
}

/// Writes a whole-row update with sequence `seq` carrying `cells` into
/// `state`; returns which columns were written and whether any was.
fn write_row(state: &mut RowState, seq: u64, cells: &Vec<(char, Option<u32>)>) -> (res: (Vec<bool>, bool))
    requires
        cells@.len() < old(state)@.cells.len(),
        seq >= old(state)@.latest_seq,
    ensures
        final(state)@ == spec_write_row(old(state)@, seq, cells@),
        res.0@.len() == old(state)@.cells.len(),
        forall|x: int| 0 <= x < res.0@.len() ==> #[trigger] res.0@[x] == row_written(old(state)@, seq, x),
        res.1 == exists|x: int| #[trigger] row_written(old(state)@, seq, x),
{
    let ghost r = state@;
    let total_cols = state.cells.len();
    let mut hit: Vec<bool> = Vec::with_capacity(total_cols);
    let mut all_blank = true;
    let mut changed = false;
    let mut c: usize = 0;
    while c < total_cols
        invariant
            total_cols == r.cells.len(),
            cells@.len() < total_cols,
            c <= total_cols,
            state.cells@.len() == total_cols,
            state.latest_seq == r.latest_seq,
            state.logical_width == r.logical_width,
            forall|x: int| 0 <= x < c ==> #[trigger] state.cells@[x] == row_cell_after(r, seq, cells@, x),
            forall|x: int| c <= x < total_cols ==> #[trigger] state.cells@[x] == r.cells[x],
            hit@.len() == c,
            forall|x: int| 0 <= x < c ==> #[trigger] hit@[x] == row_written(r, seq, x),
            all_blank == forall|x: int| 0 <= x < c && x < cells@.len() ==> (#[trigger] cells@[x]).0 == ' ',
            changed == exists|x: int| 0 <= x < c && #[trigger] row_written(r, seq, x),
        decreases total_cols - c,
    {
        let cur = state.cells[c].seq;
        let written = seq >= cur;
        if written {
            if c < cells.len() {
                let (ch, style_id) = cells[c];
                state.cells.set(c, CellState { ch, style_id, seq });
            } else {
                state.cells.set(c, CellState { ch: ' ', style_id: None, seq });
            }
            changed = true;
        }
        if c < cells.len() && cells[c].0 != ' ' {
            all_blank = false;
        }
        hit.push(written);
        proof {
            assert(row_written(r, seq, c as int) == written);
        }
        c = c + 1;
    }
    state.latest_seq = state.latest_seq.max(seq);
    state.logical_width = if all_blank {
        0
    } else {
        cells.len()
    };
    proof {
        assert(all_blank == all_spaces(cells@));
        assert(state@ =~= spec_write_row(r, seq, cells@));
        assert(changed == exists|x: int| #[trigger] row_written(r, seq, x));
    }
    (hit, changed)
}

/// Writes `ch` in `style_id` with sequence `seq` into the cells of columns
/// `c0..c1` not newer than `seq`; returns which columns were written and
/// whether any was. The row's newest sequence becomes at least `seq`.
fn fill_cols(state: &mut RowState, c0: usize, c1: usize, seq: u64, ch: char, style_id: Option<u32>) -> (res: (
    Vec<bool>,
    bool,
))
    requires
        c1 <= old(state)@.cells.len(),
    ensures
        final(state)@.cells == Seq::new(
            old(state)@.cells.len(),
            |c: int|
                if rect_written(old(state)@, c0 as int, c1 as int, seq, c) {
                    CellState { ch, style_id, seq }
                } else {
                    old(state)@.cells[c]
                },
        ),
        final(state)@.latest_seq == max_seq(old(state)@.latest_seq, seq),
        final(state)@.logical_width == old(state)@.logical_width,
        res.0@.len() == old(state)@.cells.len(),
        forall|x: int| 0 <= x < res.0@.len() ==> #[trigger] res.0@[x] == rect_written(old(state)@, c0 as int, c1 as int, seq, x),
        res.1 == exists|x: int| #[trigger] rect_written(old(state)@, c0 as int, c1 as int, seq, x),
{
    let ghost r = state@;
    let n = state.cells.len();
    let mut hit: Vec<bool> = Vec::with_capacity(n);
    let mut changed = false;
    let mut c: usize = 0;
    while c < n
        invariant
            n == r.cells.len(),
            c1 <= n,
            c <= n,
            state.cells@.len() == n,
            state.latest_seq == r.latest_seq,
            state.logical_width == r.logical_width,
            forall|x: int| 0 <= x < c ==> #[trigger] state.cells@[x] == (if rect_written(r, c0 as int, c1 as int, seq, x) {
                CellState { ch, style_id, seq }
            } else {
                r.cells[x]
            }),
            forall|x: int| c <= x < n ==> #[trigger] state.cells@[x] == r.cells[x],
            hit@.len() == c,
            forall|x: int| 0 <= x < c ==> #[trigger] hit@[x] == rect_written(r, c0 as int, c1 as int, seq, x),
            changed == exists|x: int| 0 <= x < c && #[trigger] rect_written(r, c0 as int, c1 as int, seq, x),
        decreases n - c,
    {
        let written = c0 <= c && c < c1 && seq >= state.cells[c].seq;
        if written {
            state.cells.set(c, CellState { ch, style_id, seq });
            changed = true;
        }
        hit.push(written);
        proof {
            assert(rect_written(r, c0 as int, c1 as int, seq, c as int) == written);
        }
        c = c + 1;
    }
    state.latest_seq = state.latest_seq.max(seq);
    proof {
        assert(state@.cells =~= Seq::new(
            r.cells.len(),
            |c: int|
                if rect_written(r, c0 as int, c1 as int, seq, c) {
                    CellState { ch, style_id, seq }
                } else {
                    r.cells[c]
                },
        ));
        assert(changed == exists|x: int| #[trigger] rect_written(r, c0 as int, c1 as int, seq, x));
    }
    (hit, changed)
}

impl GridRenderer {
    /// The absolute number of the first row held.
    pub fn base_row(&self) -> (res: u64)
        ensures
            res == self@.base_row,
            self.wf() ==> res <= usize::MAX,
    {
        self.base_row
    }

    /// Appends pending rows until `len` rows are held.
    pub(super) fn extend_rows(&mut self, len: usize)
        requires
            old(self).wf(),
            old(self)@.base_row + len <= usize::MAX,
        ensures
            final(self).wf(),
            final(self)@ == spec_extend_rows(old(self)@, len as nat),
    {
        let ghost v0 = self@;
        let start = self.rows.len();
        if len <= start {
            return;
        }
        let mut i = start;
        while i < len
            invariant
                start <= i <= len,
                start == v0.rows.len(),
                self@ == (RendererView { rows: v0.rows + pending_rows((i - start) as nat), ..v0 }),
                keys_unique(self.predictions@),
                keys_unique(self.styles@),
            decreases len - i,
        {
            let ghost before = self.rows@;
            self.rows.push(RowSlot::Pending);
            proof {
                lemma_slots_push(before, RowSlot::Pending);
                assert(v0.rows + pending_rows((i + 1 - start) as nat) =~= (v0.rows + pending_rows(
                    (i - start) as nat,
                )).push(SlotView::Pending));
            }
            i = i + 1;
        }
        proof {
            let v = self@;
            assert forall|k: int| 0 <= k < v.rows.len() implies (#[trigger] v.rows[k] matches SlotView::Loaded(r)
                ==> r.cells.len() == v.cols) by {
                if k < v0.rows.len() {
                    assert(v.rows[k] == v0.rows[k]);
                }
            }
        }
    }

    /// Widens every loaded row, and the grid, to at least `cols` columns.
    pub(super) fn ensure_cols_at_least(&mut self, cols: usize)
        requires
            old(self).wf(),
        ensures
            final(self).wf(),
            final(self)@ == spec_ensure_cols(old(self)@, cols as nat),
    {
        if cols <= self.cols {
            return;
        }
        let ghost v0 = self@;
        let n = self.rows.len();
        let mut i: usize = 0;
        while i < n
            invariant
                n == v0.rows.len(),
                i <= n,
                self.rows@.len() == n,
                cols > v0.cols,
                self@ == (RendererView {
                    rows: v0.rows.take(i as int).map_values(|s: SlotView| widen_slot(s, cols as nat)) + v0.rows.skip(
                        i as int,
                    ),
                    ..v0
                }),
                keys_unique(self.predictions@),
                keys_unique(self.styles@),
            decreases n - i,
        {
            let ghost before = self.rows@;
            let mut slot = RowSlot::Pending;
            self.rows.set_and_swap(i, &mut slot);
            let ghost taken = slot;
            let new_slot = match slot {
                RowSlot::Loaded(mut state) => {
                    state.ensure_cols(cols);
                    RowSlot::Loaded(state)
                },
                other => other,
            };
            proof {
                assert(slots_view(before)[i as int] == taken@);
                assert(new_slot@ == widen_slot(taken@, cols as nat)) by {
                    match taken {
                        RowSlot::Loaded(st) => {
                            if st.cells@.len() >= cols {
                            } else {
                                assert(new_slot@ matches SlotView::Loaded(r) && r.cells =~= widen_row(
                                    st@,
                                    cols as nat,
                                ).cells);
                            }
                        },
                        _ => {},
                    }
                }
            }
            self.rows.set(i, new_slot);
            proof {
                let target = v0.rows.take(i + 1).map_values(|s: SlotView| widen_slot(s, cols as nat)) + v0.rows.skip(
                    i + 1,
                );
                let prev = v0.rows.take(i as int).map_values(|s: SlotView| widen_slot(s, cols as nat)) + v0.rows.skip(
                    i as int,
                );
                assert(slots_view(before) == prev);
                assert(taken@ == v0.rows[i as int]) by {
                    assert(prev[i as int] == v0.rows.skip(i as int)[0]);
                }
                assert forall|k: int| 0 <= k < n implies #[trigger] slots_view(self.rows@)[k] == target[k] by {
                    if k < i {
                        assert(slots_view(self.rows@)[k] == slots_view(before)[k]);
                        assert(prev[k] == widen_slot(v0.rows[k], cols as nat));
                    } else if k == i {
                    } else {
                        assert(slots_view(self.rows@)[k] == slots_view(before)[k]);
                        assert(prev[k] == v0.rows.skip(i as int)[k - i]);
                    }
                }
                assert(slots_view(self.rows@) =~= target);
            }
            i = i + 1;
        }
        self.cols = cols;
        proof {
            assert(v0.rows.take(n as int) =~= v0.rows);
            assert(v0.rows.skip(n as int) =~= Seq::<SlotView>::empty());
            let v = self@;
            assert(v.rows =~= v0.rows.map_values(|s: SlotView| widen_slot(s, cols as nat)));
            assert forall|k: int| 0 <= k < v.rows.len() implies (#[trigger] v.rows[k] matches SlotView::Loaded(r)
                ==> r.cells.len() == v.cols) by {
                assert(v0.rows[k] matches SlotView::Loaded(r0) ==> r0.cells.len() == v0.cols);
            }
        }
    }

    /// The index into the rows of absolute row `absolute_row`, when it is held.
    pub(super) fn relative_row(&self, absolute_row: u64) -> (res: Option<usize>)
        requires
            self.wf(),
        ensures
            res matches Some(i) ==> rel_index(self@, absolute_row as int) == Some(i as int),
            res is None ==> rel_index(self@, absolute_row as int) is None,
    {
        if absolute_row < self.base_row {
            None
        } else {
            let idx = absolute_row - self.base_row;
            if idx < self.rows.len() as u64 {
                Some(idx as usize)
            } else {
                None
            }
        }
    }

    /// Makes absolute row `absolute_row` held, adding pending rows before the
    /// first row or after the last; returns its index.
    pub(super) fn touch_row(&mut self, absolute_row: u64) -> (res: usize)
        requires
            old(self).wf(),
            absolute_row < usize::MAX,
        ensures
            final(self).wf(),
            final(self)@ == spec_touch(old(self)@, absolute_row as int),
            rel_index(final(self)@, absolute_row as int) == Some(res as int),
    {
        if absolute_row < self.base_row {
            let missing = (self.base_row - absolute_row) as usize;
            let ghost v0 = self@;
            let mut front: Vec<RowSlot> = Vec::new();
            let mut i: usize = 0;
            while i < missing
                invariant
                    i <= missing,
                    slots_view(front@) == pending_rows(i as nat),
                decreases missing - i,
            {
                let ghost before = front@;
                front.push(RowSlot::Pending);
                proof {
                    lemma_slots_push(before, RowSlot::Pending);
                    assert(pending_rows((i + 1) as nat) =~= pending_rows(i as nat).push(SlotView::Pending));
                }
                i = i + 1;
            }
            let ghost old_rows = self.rows@;
            let mut rest = Vec::new();
            std::mem::swap(&mut rest, &mut self.rows);
            front.append(&mut rest);
            self.rows = front;
            self.base_row = absolute_row;
            self.scroll_top = self.scroll_top + missing;
            proof {
                assert(slots_view(self.rows@) =~= pending_rows(missing as nat) + slots_view(old_rows));
                let v = self@;
                assert(v == spec_touch(v0, absolute_row as int));
                assert forall|k: int| 0 <= k < v.rows.len() implies (#[trigger] v.rows[k] matches SlotView::Loaded(
                    r,
                ) ==> r.cells.len() == v.cols) by {
                    if k >= missing {
                        assert(v.rows[k] == v0.rows[k - missing]);
                    }
                }
            }
            0
        } else {
            let len = (absolute_row - self.base_row) as usize + 1;
            self.extend_rows(len);
            (absolute_row - self.base_row) as usize
        }
    }

    /// Widens the grid so that column `col` exists.
    pub(super) fn ensure_col(&mut self, col: usize)
        requires
            old(self).wf(),
            col < usize::MAX,
        ensures
            final(self).wf(),
            final(self)@ == spec_ensure_cols(old(self)@, (col + 1) as nat),
    {
        if col < self.cols {
            return;
        }
        self.ensure_cols_at_least(col + 1);
    }

    /// Holds at least `rows` rows and `cols` columns.
    pub(super) fn ensure_capacity(&mut self, rows: usize, cols: usize)
        requires
            old(self).wf(),
            old(self)@.base_row + rows <= usize::MAX,
        ensures
            final(self).wf(),
            final(self)@ == spec_ensure_cols(spec_extend_rows(old(self)@, rows as nat), cols as nat),
    {
        self.extend_rows(rows);
        self.ensure_cols_at_least(cols);
    }

    /// Holds at least `rows` rows and `cols` columns; new rows are pending,
    /// loaded rows are widened with blanks.
    pub fn ensure_size(&mut self, rows: usize, cols: usize)
        requires
            old(self).wf(),
            old(self)@.base_row + rows <= usize::MAX,
        ensures
            final(self).wf(),
            final(self)@ == spec_ensure_cols(spec_extend_rows(old(self)@, rows as nat), cols as nat),
    {
        self.ensure_capacity(rows, cols);
    }

    /// A renderer holding `rows` pending rows of `cols` columns (at least
    /// one), following the tail, with only the default style.
    pub fn new(rows: usize, cols: usize) -> (res: Self)
        ensures
            res.wf(),
            res@ == (RendererView {
                base_row: 0,
                cols: if cols >= 1 {
                    cols as nat
                } else {
                    1
                },
                rows: pending_rows(rows as nat),
                scroll_top: 0,
                viewport_height: 0,
                follow_tail: true,
                history_trimmed: false,
                selection: None,
                needs_redraw: true,
                predictions: Map::empty(),
                predictions_visible: false,
                prediction_flagging: false,
                status_message: None,
                status_highlight: None,
                status_is_error: false,
                connection_status: None,
                styles: map![0u32 => spec_default_style()],
                debug_context: None,
                cursor: None,
            }),
    {
        let mut styles: Vec<(u32, Style)> = Vec::new();
        styles.push((0u32, Style::default_style()));
        let mut renderer = GridRenderer {
            base_row: 0,
            cols: if cols >= 1 {
                cols
            } else {
                1
            },
            rows: Vec::new(),
            scroll_top: 0,
            viewport_height: 0,
            follow_tail: true,
            history_trimmed: false,
            selection: None,
            needs_redraw: true,
            predictions: Vec::new(),
            predictions_visible: false,
            prediction_flagging: false,
            status_message: None,
            status_highlight: None,
            status_is_error: false,
            connection_status: None,
            styles,
            debug_context: None,
            cursor: None,
        };
        proof {
            crate::assoc::lemma_assoc_empty::<(u64, usize), super::PredictedCell>();
            crate::assoc::lemma_assoc_index(renderer.styles@, 0);
            assert(assoc_map(renderer.styles@) =~= map![0u32 => spec_default_style()]) by {
                assert forall|k: u32| assoc_map(renderer.styles@).contains_key(k) implies k == 0u32 by {
                    let j = choose|j: int| 0 <= j < renderer.styles@.len() && renderer.styles@[j].0 == k;
                }
            }
            assert(slots_view(renderer.rows@) =~= Seq::<SlotView>::empty());
        }
        renderer.ensure_capacity(rows, cols);
        proof {
            assert(Seq::<SlotView>::empty() + pending_rows(rows as nat) =~= pending_rows(rows as nat));
        }
        renderer
    }

    /// Takes the row at index `rel` out as a loaded row (a blank one if it
    /// was not loaded), leaving a pending slot in its place.
    pub(super) fn take_row(&mut self, rel: usize) -> (res: RowState)
        requires
            old(self).wf(),
            rel < old(self)@.rows.len(),
        ensures
            final(self).wf(),
            res@ == row_or_blank(old(self)@.rows[rel as int], old(self)@.cols),
            final(self)@ == (RendererView {
                rows: old(self)@.rows.update(rel as int, SlotView::Pending),
                ..old(self)@
            }),
    {
        let ghost v0 = self@;
        let ghost before = self.rows@;
        let mut slot = RowSlot::Pending;
        self.rows.set_and_swap(rel, &mut slot);
        proof {
            assert(slots_view(self.rows@) =~= v0.rows.update(rel as int, SlotView::Pending));
            assert(slot@ == v0.rows[rel as int]);
        }
        let res = match slot {
            RowSlot::Loaded(state) => state,
            _ => {
                let st = RowState::new(self.cols);
                proof {
                    assert(st@ =~= blank_row(v0.cols));
                }
                st
            },
        };
        proof {
            let v = self@;
            assert forall|k: int| 0 <= k < v.rows.len() implies (#[trigger] v.rows[k] matches SlotView::Loaded(r)
                ==> r.cells.len() == v.cols) by {
                if k != rel {
                    assert(v.rows[k] == v0.rows[k]);
                }
            }
        }
        res
    }

    /// Puts `state` back as the loaded row at index `rel`.
    pub(super) fn put_row(&mut self, rel: usize, state: RowState)
        requires
            old(self).wf(),
            rel < old(self)@.rows.len(),
            state@.cells.len() == old(self)@.cols,
        ensures
            final(self).wf(),
            final(self)@ == (RendererView {
                rows: old(self)@.rows.update(rel as int, SlotView::Loaded(state@)),
                ..old(self)@
            }),
    {
        let ghost v0 = self@;
        let ghost st = state@;
        self.rows.set(rel, RowSlot::Loaded(state));
        proof {
            assert(slots_view(self.rows@) =~= v0.rows.update(rel as int, SlotView::Loaded(st)));
            let v = self@;
            assert forall|k: int| 0 <= k < v.rows.len() implies (#[trigger] v.rows[k] matches SlotView::Loaded(r)
                ==> r.cells.len() == v.cols) by {
                if k != rel {
                    assert(v.rows[k] == v0.rows[k]);
                }
            }
        }
    }

    /// Moves the first row held to absolute row `base_row`: rows before it
    /// are dropped, or pending rows are added in front; the viewport stays
    /// on the same rows.
    pub fn set_base_row(&mut self, base_row: u64)
        requires
            old(self).wf(),
            base_row <= usize::MAX,
        ensures
            final(self).wf(),
            final(self)@ == spec_set_base_row(old(self)@, base_row),
    {
        if base_row == self.base_row {
            return;
        }
        let ghost v0 = self@;
        if base_row > self.base_row {
            let drop = (base_row - self.base_row) as usize;
            let current_len = self.rows.len();
            if drop >= current_len {
                self.rows.clear();
                self.scroll_top = 0;
                proof {
                    assert(slots_view(self.rows@) =~= Seq::<SlotView>::empty());
                }
            } else {
                let ghost old_rows = self.rows@;
                let rest = self.rows.split_off(drop);
                self.rows = rest;
                self.scroll_top = self.scroll_top.saturating_sub(drop);
                proof {
                    assert(slots_view(self.rows@) =~= slots_view(old_rows).skip(drop as int));
                }
            }
            self.base_row = base_row;
            self.needs_redraw = true;
            proof {
                let v = self@;
                assert forall|k: int| 0 <= k < v.rows.len() implies (#[trigger] v.rows[k] matches SlotView::Loaded(
                    r,
                ) ==> r.cells.len() == v.cols) by {
                    assert(v.rows[k] == v0.rows[k + drop]);
                }
            }
        } else {
            let add = (self.base_row - base_row) as usize;
            let mut front: Vec<RowSlot> = Vec::new();
            let mut i: usize = 0;
            while i < add
                invariant
                    i <= add,
                    slots_view(front@) == pending_rows(i as nat),
                decreases add - i,
            {
                let ghost before = front@;
                front.push(RowSlot::Pending);
                proof {
                    lemma_slots_push(before, RowSlot::Pending);
                    assert(pending_rows((i + 1) as nat) =~= pending_rows(i as nat).push(SlotView::Pending));
                }
                i = i + 1;
            }
            let ghost old_rows = self.rows@;
            let mut rest = Vec::new();
            std::mem::swap(&mut rest, &mut self.rows);
            front.append(&mut rest);
            self.rows = front;
            self.scroll_top = self.scroll_top + add;
            self.base_row = base_row;
            self.needs_redraw = true;
            proof {
                assert(slots_view(self.rows@) =~= pending_rows(add as nat) + slots_view(old_rows));
                let v = self@;
                assert forall|k: int| 0 <= k < v.rows.len() implies (#[trigger] v.rows[k] matches SlotView::Loaded(
                    r,
                ) ==> r.cells.len() == v.cols) by {
                    if k >= add {
                        assert(v.rows[k] == v0.rows[k - add]);
                    }
                }
            }
        }
    }

    /// Records whether history before absolute row `base_row` has been
    /// dropped: it has when `base_row` is past the first row.
    pub fn set_history_origin(&mut self, base_row: u64)
        requires
            old(self).wf(),
        ensures
            final(self).wf(),
            final(self)@ == (RendererView { history_trimmed: base_row > 0, ..old(self)@ }),
    {
        self.history_trimmed = base_row > 0;
    }

    /// Names the update being applied, for tracing.
    pub fn set_debug_update_context(
        &mut self,
        frame: &'static str,
        update: &'static str,
        row: Option<u64>,
        seq: Option<u64>,
    )
        requires
            old(self).wf(),
        ensures
            final(self).wf(),
            final(self)@ == (RendererView {
                debug_context: Some(GridUpdateDebugContext { frame, update, row, seq }),
                ..old(self)@
            }),
    {
        self.debug_context = Some(GridUpdateDebugContext { frame, update, row, seq });
    }

    /// Forgets the update being applied.
    pub fn clear_debug_update_context(&mut self)
        requires
            old(self).wf(),
        ensures
            final(self).wf(),
            final(self)@ == (RendererView { debug_context: None, ..old(self)@ }),
    {
        self.debug_context = None;
    }

    /// Applies one cell from the host: row `absolute_row` is made held and
    /// loaded, the grid widened to column `col`, a prediction there dropped,
    /// and the cell written unless `seq` is older than the one it holds;
    /// then the tail is followed if it is being followed.
    pub fn apply_cell(&mut self, absolute_row: usize, col: usize, seq: u64, ch: char, style_id: Option<u32>)
        requires
            old(self).wf(),
            absolute_row < usize::MAX,
            col < usize::MAX,
        ensures
            final(self).wf(),
            final(self)@ == spec_apply_cell(old(self)@, absolute_row as int, col as int, seq, ch, style_id),
    {
        let absolute = absolute_row as u64;
        let rel = self.touch_row(absolute);
        self.ensure_col(col);
        self.clear_prediction_at(absolute_row, col);
        let ghost v1 = self@;
        let mut state = self.take_row(rel);
        let ghost r = state@;
        let wrote = seq >= state.cells[col].seq;
        if wrote {
            state.cells.set(col, CellState { ch, style_id, seq });
            state.latest_seq = state.latest_seq.max(seq);
            state.logical_width = state.logical_width.max(col + 1);
            proof {
                assert(state@ =~= spec_write_cell(r, col as int, seq, ch, style_id));
            }
        }
        self.put_row(rel, state);
        if wrote {
            self.needs_redraw = true;
        }
        proof {
            assert(self@ =~= (RendererView {
                rows: v1.rows.update(rel as int, SlotView::Loaded(spec_write_cell(r, col as int, seq, ch, style_id))),
                needs_redraw: v1.needs_redraw || wrote,
                ..v1
            }));
        }
        if self.follow_tail {
            self.scroll_to_tail();
        }
    }

    /// Drops the predictions on row `absolute_row` at the columns `hit`
    /// marks; marks the renderer dirty for each one dropped.
    pub(super) fn clear_predictions_on_columns(&mut self, absolute_row: usize, hit: &Vec<bool>)
        requires
            old(self).wf(),
        ensures
            final(self).wf(),
            final(self)@ == (RendererView {
                predictions: drop_predictions(
                    old(self)@.predictions,
                    absolute_row as u64,
                    |c: int| 0 <= c < hit@.len() && hit@[c],
                ),
                needs_redraw: final(self)@.needs_redraw,
                ..old(self)@
            }),
            old(self)@.needs_redraw ==> final(self)@.needs_redraw,
            final(self)@.needs_redraw ==> old(self)@.needs_redraw || exists|c: int| 0 <= c < hit@.len() && hit@[c],
    {
        let ghost v0 = self@;
        let abs = absolute_row as u64;
        let n = hit.len();
        let mut c: usize = 0;
        while c < n
            invariant
                self.wf(),
                abs == absolute_row as u64,
                n == hit@.len(),
                c <= n,
                self@ == (RendererView {
                    predictions: drop_predictions(v0.predictions, abs, |x: int| 0 <= x < c && hit@[x]),
                    needs_redraw: self@.needs_redraw,
                    ..v0
                }),
                v0.needs_redraw ==> self@.needs_redraw,
                self@.needs_redraw ==> v0.needs_redraw || exists|x: int| 0 <= x < c && hit@[x],
            decreases n - c,
        {
            if hit[c] {
                let ghost before = self@;
                self.clear_prediction_at(absolute_row, c);
                proof {
                    assert(drop_predictions(v0.predictions, abs, |x: int| 0 <= x < c + 1 && hit@[x])
                        =~= before.predictions.remove((abs, c)));
                    if !before.predictions.contains_key((abs, c)) {
                        assert(before.predictions.remove((abs, c)) =~= before.predictions);
                    }
                    assert(hit@[c as int]);
                }
            } else {
                proof {
                    assert(drop_predictions(v0.predictions, abs, |x: int| 0 <= x < c + 1 && hit@[x])
                        =~= drop_predictions(v0.predictions, abs, |x: int| 0 <= x < c && hit@[x]));
                }
            }
            c = c + 1;
        }
        proof {
            assert(drop_predictions(v0.predictions, abs, |x: int| 0 <= x < n && hit@[x]) =~= drop_predictions(
                v0.predictions,
                abs,
                |c: int| 0 <= c < hit@.len() && hit@[c],
            ));
        }
    }

    /// Applies a whole-row update: see `spec_apply_row`.
    #[verifier::rlimit(30)]
    pub(super) fn apply_row(&mut self, absolute_row: usize, seq: u64, cells: &Vec<(char, Option<u32>)>)
        requires
            old(self).wf(),
            absolute_row < usize::MAX,
            cells@.len() < usize::MAX,
        ensures
            final(self).wf(),
            final(self)@ == spec_apply_row(old(self)@, absolute_row as int, seq, cells@),
    {
        let absolute = absolute_row as u64;
        let rel = self.touch_row(absolute);
        self.ensure_col(cells.len());
        let total_cols = self.cols;
        let ghost v1 = self@;
        let mut state = self.take_row(rel);
        let ghost r = state@;
        if seq < state.latest_seq {
            self.put_row(rel, state);
            return;
        }
        let (hit, changed) = write_row(&mut state, seq, cells);
        self.put_row(rel, state);
        let ghost v2 = self@;
        self.clear_predictions_on_columns(absolute_row, &hit);
        if changed {
            self.needs_redraw = true;
        }
        proof {
            assert(drop_predictions(v2.predictions, absolute, |x: int| 0 <= x < hit@.len() && hit@[x])
                =~= drop_predictions(v1.predictions, absolute, |x: int| row_written(r, seq, x)));
            if exists|x: int| 0 <= x < hit@.len() && hit@[x] {
                let x = choose|x: int| 0 <= x < hit@.len() && hit@[x];
                assert(row_written(r, seq, x));
            }
        }
    }

    /// Applies row `absolute_row` from its cells, each a character and a
    /// style id: see `spec_apply_row`.
    pub fn apply_row_from_cells(&mut self, absolute_row: usize, seq: u64, cells: &[(char, Option<u32>)])
        requires
            old(self).wf(),
            absolute_row < usize::MAX,
            cells@.len() < usize::MAX,
        ensures
            final(self).wf(),
            final(self)@ == spec_apply_row(old(self)@, absolute_row as int, seq, cells@),
    {
        let mut v: Vec<(char, Option<u32>)> = Vec::with_capacity(cells.len());
        let mut i: usize = 0;
        while i < cells.len()
            invariant
                i <= cells@.len(),
                v@ == cells@.take(i as int),
            decreases cells@.len() - i,
        {
            v.push(cells[i]);
            proof {
                assert(cells@.take(i + 1) =~= cells@.take(i as int).push(cells@[i as int]));
            }
            i = i + 1;
        }
        proof {
            assert(cells@.take(cells@.len() as int) =~= cells@);
        }
        self.apply_row(absolute_row, seq, &v);
    }

    /// Applies row `absolute_row` from its text, in the default style: see
    /// `spec_apply_row`.
    pub fn apply_row_from_text(&mut self, absolute_row: usize, seq: u64, text: &str)
        requires
            old(self).wf(),
            absolute_row < usize::MAX,
            text@.len() < usize::MAX,
        ensures
            final(self).wf(),
            final(self)@ == spec_apply_row(old(self)@, absolute_row as int, seq, text_cells(text@)),
    {
        let chars = crate::text::str_chars(text);
        let mut v: Vec<(char, Option<u32>)> = Vec::with_capacity(chars.len());
        let mut i: usize = 0;
        while i < chars.len()
            invariant
                chars@ == text@,
                i <= chars@.len(),
                v@ == text_cells(text@).take(i as int),
            decreases chars@.len() - i,
        {
            v.push((chars[i], None));
            proof {
                assert(text_cells(text@).take(i + 1) =~= text_cells(text@).take(i as int).push((chars@[i as int], None)));
            }
            i = i + 1;
        }
        proof {
            assert(text_cells(text@).take(chars@.len() as int) =~= text_cells(text@));
        }
        self.apply_row(absolute_row, seq, &v);
    }

    /// Fills columns `c0..c1` of one row: see `spec_rect_row`.
    #[verifier::spinoff_prover]
    #[verifier::rlimit(40)]
    fn apply_rect_row(&mut self, absolute_row: usize, c0: usize, c1: usize, seq: u64, ch: char, style_id: Option<u32>)
        requires
            old(self).wf(),
            absolute_row < usize::MAX,
            c1 < usize::MAX,
        ensures
            final(self).wf(),
            final(self)@ == spec_rect_row(old(self)@, absolute_row as int, c0 as int, c1 as int, seq, ch, style_id),
    {
        let ghost v0 = self@;
        let rel = self.touch_row(absolute_row as u64);
        self.ensure_col(c1);
        let ghost v1 = self@;
        let mut state = self.take_row(rel);
        let ghost r = state@;
        if ch != ' ' {
            state.logical_width = state.logical_width.max(c1);
        } else if c0 == 0 && c1 >= state.logical_width {
            state.logical_width = c0;
        }
        let ghost r_lw = state@;
        let (hit, changed) = fill_cols(&mut state, c0, c1, seq, ch, style_id);
        proof {
            assert(state@.logical_width == rect_logical_width(r, c0 as int, c1 as int, ch));
            assert forall|x: int| #[trigger] rect_written(r_lw, c0 as int, c1 as int, seq, x) == rect_written(
                r,
                c0 as int,
                c1 as int,
                seq,
                x,
            ) by {}
            assert(r_lw.cells == r.cells);
            assert(state@.cells =~= Seq::new(
                r.cells.len(),
                |c: int|
                    if rect_written(r, c0 as int, c1 as int, seq, c) {
                        CellState { ch, style_id, seq }
                    } else {
                        r.cells[c]
                    },
            ));
            assert(state@.latest_seq == max_seq(r.latest_seq, seq));
        }
        let ghost st = state@;
        self.put_row(rel, state);
        let ghost v2 = self@;
        if changed {
            self.needs_redraw = true;
        }
        self.clear_predictions_on_columns(absolute_row, &hit);
        proof {
            assert(self@.rows == v1.rows.update(rel as int, SlotView::Loaded(st)));
            assert(rel == absolute_row - v1.base_row);
        }
        proof {
            assert(drop_predictions(v2.predictions, absolute_row as u64, |x: int| 0 <= x < hit@.len() && hit@[x])
                =~= drop_predictions(v1.predictions, absolute_row as u64, |x: int| rect_written(r, c0 as int, c1 as int, seq, x)));
            if exists|x: int| 0 <= x < hit@.len() && hit@[x] {
                let x = choose|x: int| 0 <= x < hit@.len() && hit@[x];
                assert(rect_written(r, c0 as int, c1 as int, seq, x));
            }
            assert(self@.rows =~= v1.rows.update(
                absolute_row - v1.base_row,
                SlotView::Loaded(
                    RowView {
                        cells: Seq::new(
                            r.cells.len(),
                            |c: int|
                                if rect_written(r, c0 as int, c1 as int, seq, c) {
                                    CellState { ch, style_id, seq }
                                } else {
                                    r.cells[c]
                                },
                        ),
                        latest_seq: max_seq(r.latest_seq, seq),
                        logical_width: rect_logical_width(r, c0 as int, c1 as int, ch),
                    },
                ),
            ));
            assert(changed == exists|x: int| #[trigger] rect_written(r, c0 as int, c1 as int, seq, x)) by {
                if changed {
                    let x = choose|x: int| #[trigger] rect_written(r_lw, c0 as int, c1 as int, seq, x);
                    assert(rect_written(r, c0 as int, c1 as int, seq, x));
                }
                if exists|x: int| #[trigger] rect_written(r, c0 as int, c1 as int, seq, x) {
                    let x = choose|x: int| #[trigger] rect_written(r, c0 as int, c1 as int, seq, x);
                    assert(rect_written(r_lw, c0 as int, c1 as int, seq, x));
                }
            }
            assert(v1 == spec_ensure_cols(spec_touch(v0, absolute_row as int), (c1 + 1) as nat));
            assert(self@ =~= spec_rect_row(v0, absolute_row as int, c0 as int, c1 as int, seq, ch, style_id));
        }
    }

    /// Fills the rectangle of rows `rows` and columns `cols` with `ch` in
    /// `style_id`, row by row (see `spec_rect_row`), and marks the renderer
    /// dirty.
    pub fn apply_rect(
        &mut self,
        rows: std::ops::Range<usize>,
        cols: std::ops::Range<usize>,
        seq: u64,
        ch: char,
        style_id: Option<u32>,
    )
        requires
            old(self).wf(),
            cols.end < usize::MAX,
        ensures
            final(self).wf(),
            final(self)@ == (RendererView {
                needs_redraw: true,
                ..spec_rect_rows(
                    old(self)@,
                    rows.start as int,
                    if rows.end >= rows.start {
                        rows.end - rows.start
                    } else {
                        0
                    },
                    cols.start as int,
                    cols.end as int,
                    seq,
                    ch,
                    style_id,
                )
            }),
    {
        let ghost v0 = self@;
        let r0 = rows.start;
        let r1 = rows.end;
        let c0 = cols.start;
        let c1 = cols.end;
        let mut row = r0;
        while row < r1
            invariant
                self.wf(),
                r0 <= row,
                r1 >= r0 ==> row <= r1,
                r1 < r0 ==> row == r0,
                c1 < usize::MAX,
                self@ == spec_rect_rows(v0, r0 as int, row - r0, c0 as int, c1 as int, seq, ch, style_id),
            decreases r1 - row,
        {
            self.apply_rect_row(row, c0, c1, seq, ch, style_id);
            row = row + 1;
        }
        self.needs_redraw = true;
    }

    /// Blanks the tail of the row at index `rel` after a segment that
    /// starts at column 0: see `spec_segment_tail`.
    fn blank_segment_tail(&mut self, absolute_row: usize, rel: usize, end_col: usize, last_seq: u64, width: usize)
        requires
            old(self).wf(),
            rel < old(self)@.rows.len(),
            old(self)@.rows[rel as int] is Loaded,
            rel_index(old(self)@, absolute_row as int) == Some(rel as int),
        ensures
            final(self).wf(),
            final(self)@ == spec_segment_tail(old(self)@, absolute_row as int, rel as int, end_col as int, last_seq, width as nat),
    {
        let ghost v1 = self@;
        let mut state = self.take_row(rel);
        let ghost r = state@;
        let n = state.cells.len();
        state.logical_width = width;
        let mut hit: Vec<bool> = Vec::with_capacity(n);
        let mut changed = false;
        let mut c: usize = 0;
        while c < n
            invariant
                n == r.cells.len(),
                c <= n,
                state.cells@.len() == n,
                state.latest_seq == r.latest_seq,
                state.logical_width == width,
                forall|x: int| 0 <= x < c ==> #[trigger] state.cells@[x] == (if tail_written(r, end_col as int, last_seq, x) {
                    CellState { ch: ' ', style_id: None, seq: last_seq }
                } else {
                    r.cells[x]
                }),
                forall|x: int| c <= x < n ==> #[trigger] state.cells@[x] == r.cells[x],
                hit@.len() == c,
                forall|x: int| 0 <= x < c ==> #[trigger] hit@[x] == tail_written(r, end_col as int, last_seq, x),
                changed == exists|x: int| 0 <= x < c && #[trigger] tail_written(r, end_col as int, last_seq, x),
            decreases n - c,
        {
            let written = end_col <= c && last_seq >= state.cells[c].seq;
            if written {
                state.cells.set(c, CellState { ch: ' ', style_id: None, seq: last_seq });
                changed = true;
            }
            hit.push(written);
            proof {
                assert(tail_written(r, end_col as int, last_seq, c as int) == written);
            }
            c = c + 1;
        }
        if end_col < n {
            state.latest_seq = state.latest_seq.max(last_seq);
        }
        proof {
            assert(changed == exists|x: int| #[trigger] tail_written(r, end_col as int, last_seq, x));
        }
        self.put_row(rel, state);
        let ghost v2 = self@;
        if changed {
            self.needs_redraw = true;
        }
        self.clear_predictions_on_columns(absolute_row, &hit);
        proof {
            assert(drop_predictions(v2.predictions, absolute_row as u64, |x: int| 0 <= x < hit@.len() && hit@[x])
                =~= drop_predictions(v1.predictions, absolute_row as u64, |x: int| tail_written(r, end_col as int, last_seq, x)));
            if exists|x: int| 0 <= x < hit@.len() && hit@[x] {
                let x = choose|x: int| 0 <= x < hit@.len() && hit@[x];
                assert(tail_written(r, end_col as int, last_seq, x));
            }
            assert(self@.rows[rel as int] == spec_segment_tail(v1, absolute_row as int, rel as int, end_col as int, last_seq, width as nat).rows[rel as int]) by {
                assert(self@.rows[rel as int] matches SlotView::Loaded(rr) && rr.cells =~= Seq::new(
                    r.cells.len(),
                    |c: int|
                        if tail_written(r, end_col as int, last_seq, c) {
                            CellState { ch: ' ', style_id: None, seq: last_seq }
                        } else {
                            r.cells[c]
                        },
                ));
            }
            assert(self@.rows =~= spec_segment_tail(v1, absolute_row as int, rel as int, end_col as int, last_seq, width as nat).rows);
        }
    }

    /// Applies a segment of cells `(column, sequence, character, style)` of
    /// row `absolute_row`: see `spec_apply_segment`.
    pub fn apply_segment(&mut self, absolute_row: usize, cells: &[(usize, u64, char, Option<u32>)])
        requires
            old(self).wf(),
            absolute_row < usize::MAX,
            forall|k: int| 0 <= k < cells@.len() ==> (#[trigger] cells@[k]).0 < usize::MAX,
        ensures
            final(self).wf(),
            final(self)@ == spec_apply_segment(old(self)@, absolute_row as int, cells@),
    {
        if cells.len() == 0 {
            return;
        }
        let ghost v0 = self@;
        let n = cells.len();
        let mut k: usize = 0;
        let mut any_visible = false;
        while k < n
            invariant
                self.wf(),
                n == cells@.len(),
                k <= n,
                absolute_row < usize::MAX,
                forall|j: int| 0 <= j < cells@.len() ==> (#[trigger] cells@[j]).0 < usize::MAX,
                self@ == spec_apply_cells(v0, absolute_row as int, cells@, k as int),
                any_visible == exists|c: int| 0 <= c < k && (#[trigger] cells@[c]).2 != ' ',
                k > 0 ==> rel_index(self@, absolute_row as int) is Some,
            decreases n - k,
        {
            let (col, seq, ch, style_id) = cells[k];
            self.apply_cell(absolute_row, col, seq, ch, style_id);
            if ch != ' ' {
                any_visible = true;
            }
            proof {
                assert(cells@[k as int] == (col, seq, ch, style_id));
            }
            k = k + 1;
        }
        if cells[0].0 == 0 {
            match self.relative_row(absolute_row as u64) {
                Some(rel) => {
                    let loaded = match &self.rows[rel] {
                        RowSlot::Loaded(_) => true,
                        _ => false,
                    };
                    if loaded {
                        let last = cells[n - 1];
                        let end_col = last.0 + 1;
                        let width = if any_visible {
                            end_col
                        } else {
                            0
                        };
                        self.blank_segment_tail(absolute_row, rel, end_col, last.1, width);
                    }
                },
                None => {},
            }
        }
    }

    /// Marks absolute row `absolute_row` unavailable, if it is held.
    pub fn mark_row_missing(&mut self, absolute_row: u64)
        requires
            old(self).wf(),
        ensures
            final(self).wf(),
            final(self)@ == spec_mark_row_missing(old(self)@, absolute_row as int),
    {
        if let Some(rel) = self.relative_row(absolute_row) {
            let missing = match &self.rows[rel] {
                RowSlot::Missing => true,
                _ => false,
            };
            if !missing {
                let ghost v0 = self@;
                self.rows.set(rel, RowSlot::Missing);
                self.needs_redraw = true;
                proof {
                    assert(self@.rows =~= v0.rows.update(rel as int, SlotView::Missing));
                    let v = self@;
                    assert forall|k: int| 0 <= k < v.rows.len() implies (#[trigger] v.rows[k] matches SlotView::Loaded(
                        r,
                    ) ==> r.cells.len() == v.cols) by {
                        if k != rel {
                            assert(v.rows[k] == v0.rows[k]);
                        }
                    }
                }
            }
        }
    }

    /// Marks absolute row `absolute_row` requested: see
    /// `spec_mark_row_pending`.
    pub fn mark_row_pending(&mut self, absolute_row: u64)
        requires
            old(self).wf(),
            absolute_row < usize::MAX,
        ensures
            final(self).wf(),
            final(self)@ == spec_mark_row_pending(old(self)@, absolute_row as int),
    {
        let rel = match self.relative_row(absolute_row) {
            Some(rel) => {
                let pending = match &self.rows[rel] {
                    RowSlot::Pending => true,
                    _ => false,
                };
                if pending {
                    return;
                }
                rel
            },
            None => self.touch_row(absolute_row),
        };
        let ghost v0 = self@;
        self.rows.set(rel, RowSlot::Pending);
        self.needs_redraw = true;
        proof {
            assert(self@.rows =~= v0.rows.update(rel as int, SlotView::Pending));
            let v = self@;
            assert forall|k: int| 0 <= k < v.rows.len() implies (#[trigger] v.rows[k] matches SlotView::Loaded(r)
                ==> r.cells.len() == v.cols) by {
                if k != rel {
                    assert(v.rows[k] == v0.rows[k]);
                }
            }
        }
    }

    /// Pulls the text width of absolute row `absolute_row` back over
    /// trailing spaces down to column `col`, and drops the predictions on it
    /// from column `col` on; returns whether anything changed (marking the
    /// renderer dirty).
    pub fn shrink_row_to_column(&mut self, absolute_row: u64, col: usize) -> (res: bool)
        requires
            old(self).wf(),
        ensures
            final(self).wf(),
            res == (width_shrinks(old(self)@, absolute_row as int, col as int) || filter_drops_some(
                old(self)@.predictions,
                PredictionFilter::NotOnRowFrom(absolute_row, col),
            )),
            final(self)@ == (RendererView {
                rows: shrunk_rows(old(self)@, absolute_row as int, col as int),
                predictions: filtered(old(self)@.predictions, PredictionFilter::NotOnRowFrom(absolute_row, col)),
                needs_redraw: old(self)@.needs_redraw || res,
                ..old(self)@
            }),
    {
        let ghost v0 = self@;
        let mut changed = false;
        if let Some(rel) = self.relative_row(absolute_row) {
            let loaded_wider = match &self.rows[rel] {
                RowSlot::Loaded(state) => state.logical_width > col,
                _ => false,
            };
            if loaded_wider {
                let mut state = self.take_row(rel);
                let ghost r = state@;
                let mut new_width = state.logical_width;
                while new_width > col
                    invariant
                        col <= new_width <= r.logical_width,
                        state@ == r,
                        shrink_width(r.cells, new_width as int, col as int) == shrink_width(
                            r.cells,
                            r.logical_width as int,
                            col as int,
                        ),
                    ensures
                        col <= new_width <= r.logical_width,
                        state@ == r,
                        shrink_width(r.cells, new_width as int, col as int) == shrink_width(
                            r.cells,
                            r.logical_width as int,
                            col as int,
                        ),
                        new_width == col || (new_width - 1 < r.cells.len() && r.cells[new_width - 1].ch != ' '),
                    decreases new_width,
                {
                    let idx = new_width - 1;
                    if idx >= state.cells.len() {
                        new_width = new_width - 1;
                        continue;
                    }
                    if state.cells[idx].ch != ' ' {
                        break;
                    }
                    new_width = new_width - 1;
                }
                proof {
                    assert(shrink_width(r.cells, new_width as int, col as int) == new_width);
                }
                if new_width < state.logical_width {
                    state.logical_width = new_width;
                    changed = true;
                }
                self.put_row(rel, state);
                proof {
                    assert(self@.rows =~= shrunk_rows(v0, absolute_row as int, col as int));
                }
            }
        }
        let ghost v1 = self@;
        let dropped = self.retain_predictions(PredictionFilter::NotOnRowFrom(absolute_row, col));
        if changed || dropped {
            self.needs_redraw = true;
            true
        } else {
            proof {
                assert(!width_shrinks(v0, absolute_row as int, col as int));
                assert(v1.rows =~= shrunk_rows(v0, absolute_row as int, col as int));
            }
            false
        }
    }

    /// Drops the first `trim` rows held; the base moves past them and the
    /// viewport stays on the same rows.
    fn drop_front_rows(&mut self, trim: usize)
        requires
            old(self).wf(),
            0 < trim <= old(self)@.rows.len(),
        ensures
            final(self).wf(),
            final(self)@ == (RendererView {
                rows: old(self)@.rows.skip(trim as int),
                base_row: (old(self)@.base_row + trim) as u64,
                scroll_top: sat_sub(old(self)@.scroll_top as int, trim as int),
                ..old(self)@
            }),
    {
        let ghost v0 = self@;
        let ghost old_rows = self.rows@;
        let rest = self.rows.split_off(trim);
        self.rows = rest;
        self.base_row = self.base_row + trim as u64;
        self.scroll_top = self.scroll_top.saturating_sub(trim);
        proof {
            assert(slots_view(self.rows@) =~= slots_view(old_rows).skip(trim as int));
            let v = self@;
            assert forall|k: int| 0 <= k < v.rows.len() implies (#[trigger] v.rows[k] matches SlotView::Loaded(r)
                ==> r.cells.len() == v.cols) by {
                assert(v.rows[k] == v0.rows[k + trim]);
            }
        }
    }

    /// Drops a selection lying wholly above row `base`, and cuts one
    /// reaching past it to start there.
    fn cut_selection_to(&mut self, base: u64)
        requires
            old(self).wf(),
        ensures
            final(self).wf(),
            final(self)@ == (RendererView {
                selection: match old(self)@.selection {
                    Some(range) => if range.anchor.row < base && range.head.row < base {
                        None
                    } else {
                        Some(
                            SelectionRange {
                                anchor: clamp_selection_row(range.anchor, base),
                                head: clamp_selection_row(range.head, base),
                                mode: range.mode,
                            },
                        )
                    },
                    None => None,
                },
                ..old(self)@
            }),
    {
        match self.selection {
            Some(range) => {
                let (_, max_row) = range.row_bounds();
                if max_row < base {
                    self.selection = None;
                } else {
                    let mut r = range;
                    if r.anchor.row < base {
                        r.anchor.row = base;
                    }
                    if r.head.row < base {
                        r.head.row = base;
                    }
                    self.selection = Some(r);
                }
            },
            None => {},
        }
    }

    /// Drops history rows `start..start + count`: see `spec_apply_trim`.
    #[verifier::spinoff_prover]
    #[verifier::rlimit(40)]
    pub fn apply_trim(&mut self, start: usize, count: usize)
        requires
            old(self).wf(),
        ensures
            final(self).wf(),
            final(self)@ == spec_apply_trim(old(self)@, start as int, count as int),
    {
        if count == 0 {
            return;
        }
        let start_abs = start as u64;
        let new_base = start_abs.saturating_add(count as u64);
        if new_base <= self.base_row {
            return;
        }
        let available = self.rows.len();
        let diff = new_base - self.base_row;
        let trim_count: usize = if diff <= available as u64 {
            diff as usize
        } else {
            available
        };
        if trim_count == 0 {
            return;
        }
        let ghost v0 = self@;
        proof {
            assert(new_base == (if start + count <= u64::MAX {
                start + count
            } else {
                u64::MAX as int
            }));
        }
        self.drop_front_rows(trim_count);
        let ghost v1 = self@;
        if self.follow_tail {
            self.scroll_to_tail();
        }
        if new_base > 0 {
            self.history_trimmed = true;
        }
        let ghost v2 = self@;
        let base = self.base_row;
        self.retain_predictions(PredictionFilter::FromRow(base));
        self.cut_selection_to(base);
        self.needs_redraw = true;
        proof {
            let b = (v0.base_row + trim_count) as u64;
            assert(base == b);
            assert(v2 == (RendererView {
                history_trimmed: true,
                ..(if v1.follow_tail {
                    spec_scroll_to_tail(v1)
                } else {
                    v1
                })
            }));
            assert(filtered(v2.predictions, PredictionFilter::FromRow(base)) =~= Map::new(
                |k: (u64, usize)| v2.predictions.contains_key(k) && k.0 >= b,
                |k: (u64, usize)| v2.predictions[k],
            ));
            assert(self@ =~= spec_apply_trim(v0, start as int, count as int));
        }
    }
}

} // verus!

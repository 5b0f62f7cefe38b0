//! What the renderer's operations promise together.

use vstd::prelude::*;

use super::predictions::{filtered, PredictionFilter};
use super::text::spec_cell_for_render;
use super::{
    renderer_wf, rows_fit, rel_index, row_or_blank, spec_apply_cell, spec_apply_trim, spec_clear_prediction,
    spec_ensure_cols, spec_set_base_row, spec_touch, spec_write_cell, widen_row, widen_slot, PredictedCell,
    RendererView, SlotView,
};

verus! {

/// Making a row held keeps every loaded row as wide as the grid.
proof fn lemma_touch_fits(v: RendererView, abs: int)
    requires
        rows_fit(v.rows, v.cols),
    ensures
        rows_fit(spec_touch(v, abs).rows, v.cols),
        spec_touch(v, abs).cols == v.cols,
{
    let t = spec_touch(v, abs);
    if abs < v.base_row {
        let missing = (v.base_row - abs) as nat;
        assert forall|k: int| 0 <= k < t.rows.len() implies (#[trigger] t.rows[k] matches SlotView::Loaded(r)
            ==> r.cells.len() == v.cols) by {
            if k >= missing {
                assert(t.rows[k] == v.rows[k - missing]);
            }
        }
    } else if abs - v.base_row + 1 > v.rows.len() {
        assert forall|k: int| 0 <= k < t.rows.len() implies (#[trigger] t.rows[k] matches SlotView::Loaded(r)
            ==> r.cells.len() == v.cols) by {
            if k < v.rows.len() {
                assert(t.rows[k] == v.rows[k]);
            }
        }
    }
}

/// Widening the grid widens every loaded row with it.
proof fn lemma_ensure_cols_fits(v: RendererView, n: nat)
    requires
        rows_fit(v.rows, v.cols),
    ensures
        rows_fit(spec_ensure_cols(v, n).rows, spec_ensure_cols(v, n).cols),
        spec_ensure_cols(v, n).rows.len() == v.rows.len(),
        spec_ensure_cols(v, n).base_row == v.base_row,
        spec_ensure_cols(v, n).cols >= n,
{
    let e = spec_ensure_cols(v, n);
    if n > v.cols {
        assert forall|k: int| 0 <= k < e.rows.len() implies (#[trigger] e.rows[k] matches SlotView::Loaded(r)
            ==> r.cells.len() == e.cols) by {
            assert(e.rows[k] == widen_slot(v.rows[k], n));
            match v.rows[k] {
                SlotView::Loaded(r0) => {
                    assert(r0.cells.len() == v.cols);
                    assert(widen_row(r0, n).cells.len() == n);
                },
                _ => {},
            }
        }
    }
}

/// A cell applied with a sequence not older than the one it holds is what
/// is drawn there afterwards: its character and style, not a prediction.
pub proof fn law_apply_cell_then_render(
    v: RendererView,
    abs: int,
    col: int,
    seq: u64,
    ch: char,
    style_id: Option<u32>,
)
    requires
        renderer_wf(v),
        0 <= abs < usize::MAX,
        0 <= col < usize::MAX,
        ({
            let v1 = spec_clear_prediction(spec_ensure_cols(spec_touch(v, abs), (col + 1) as nat), (abs as u64, col as usize));
            seq >= row_or_blank(v1.rows[abs - v1.base_row], v1.cols).cells[col].seq
        }),
    ensures
        spec_cell_for_render(spec_apply_cell(v, abs, col, seq, ch, style_id), abs, col) == (ch, style_id, false),
{
    let t = spec_touch(v, abs);
    lemma_touch_fits(v, abs);
    lemma_ensure_cols_fits(t, (col + 1) as nat);
    let e = spec_ensure_cols(t, (col + 1) as nat);
    let v1 = spec_clear_prediction(e, (abs as u64, col as usize));
    let i = abs - v1.base_row;
    assert(0 <= i < v1.rows.len());
    let r = row_or_blank(v1.rows[i], v1.cols);
    assert(r.cells.len() == v1.cols) by {
        assert(v1.rows[i] matches SlotView::Loaded(rr) ==> rr.cells.len() == v1.cols);
    }
    let after = spec_apply_cell(v, abs, col, seq, ch, style_id);
    assert(!after.predictions.contains_key((abs as u64, col as usize)));
    assert(rel_index(after, abs) == Some(i));
    assert(after.rows[i] == SlotView::Loaded(spec_write_cell(r, col, seq, ch, style_id)));
}

/// A cell applied with a sequence older than the one it holds changes no
/// cell of its row.
pub proof fn law_apply_older_cell_keeps_row(
    v: RendererView,
    abs: int,
    col: int,
    seq: u64,
    ch: char,
    style_id: Option<u32>,
)
    requires
        renderer_wf(v),
        0 <= abs < usize::MAX,
        0 <= col < usize::MAX,
        ({
            let v1 = spec_clear_prediction(spec_ensure_cols(spec_touch(v, abs), (col + 1) as nat), (abs as u64, col as usize));
            seq < row_or_blank(v1.rows[abs - v1.base_row], v1.cols).cells[col].seq
        }),
    ensures
        ({
            let v1 = spec_clear_prediction(spec_ensure_cols(spec_touch(v, abs), (col + 1) as nat), (abs as u64, col as usize));
            let after = spec_apply_cell(v, abs, col, seq, ch, style_id);
            after.rows[abs - after.base_row] == SlotView::Loaded(row_or_blank(v1.rows[abs - v1.base_row], v1.cols))
        }),
{
}

/// Moving the first row never changes a row still held: every absolute row
/// held before and after holds the same content.
pub proof fn law_set_base_row_keeps_rows(v: RendererView, base: u64, abs: int)
    requires
        renderer_wf(v),
        rel_index(v, abs) is Some,
        rel_index(spec_set_base_row(v, base), abs) is Some,
    ensures
        ({
            let w = spec_set_base_row(v, base);
            w.rows[abs - w.base_row] == v.rows[abs - v.base_row]
        }),
{
    let w = spec_set_base_row(v, base);
    if base > v.base_row {
        let drop = base - v.base_row;
        if drop < v.rows.len() {
            assert(w.rows[abs - w.base_row] == v.rows.skip(drop)[abs - base]);
        }
    } else if base < v.base_row {
        let add = (v.base_row - base) as nat;
        assert(w.rows[abs - w.base_row] == (super::pending_rows(add) + v.rows)[abs - base]);
    }
}

/// After history is trimmed, no prediction lies on a row above the new
/// first row.
pub proof fn law_trim_drops_predictions_above(v: RendererView, start: int, count: int, key: (u64, usize))
    requires
        renderer_wf(v),
        spec_apply_trim(v, start, count).predictions.contains_key(key),
        spec_apply_trim(v, start, count).base_row != v.base_row,
    ensures
        key.0 >= spec_apply_trim(v, start, count).base_row,
{
}

/// A prediction added for input `seq` is gone once the predictions of
/// `seq` are cleared, and those of other inputs stay.
pub proof fn law_clear_prediction_seq(
    preds: vstd::map::Map<(u64, usize), PredictedCell>,
    key: (u64, usize),
    ch: char,
    seq: u64,
    other: (u64, usize),
)
    requires
        other != key,
        preds.contains_key(other),
        preds[other].seq != seq,
    ensures
        !filtered(preds.insert(key, PredictedCell { ch, seq }), PredictionFilter::NotSeq(seq)).contains_key(key),
        filtered(preds.insert(key, PredictedCell { ch, seq }), PredictionFilter::NotSeq(seq)).contains_key(other),
{
}

} // verus!

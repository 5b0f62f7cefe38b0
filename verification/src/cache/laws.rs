//! Properties that hold across the cache operations.

use vstd::prelude::*;

use super::grid::{AtomicGridView, spec_atomic_write, spec_freeze, spec_thaw};
use super::terminal::cache::{
    RowView, TerminalGridView, blank_cell, extend_rows, fill_row, sat_add, spec_fill_rect, spec_write_cell, trimmed_view,
    widen_rows, write_row,
};
use super::terminal::packed::PackedCell;
use super::{SeqNum, WriteError, WriteOutcome};

verus! {

/// Every row of the view is `cols` wide and the history limit is positive,
/// as in every well-formed terminal grid.
pub open spec fn terminal_view_wf(g: TerminalGridView) -> bool {
    &&& forall|i: int| 0 <= i < g.rows.len() ==> (#[trigger] g.rows[i]).cells.len() == g.cols && g.rows[i].seqs.len() == g.cols
    &&& g.history_limit >= 1
}

/// The sequence stored for absolute row `row`, column `col`, or 0 when the
/// grid does not hold that cell yet.
pub open spec fn prior_seq(g: TerminalGridView, row: int, col: int) -> SeqNum {
    if g.base <= row < g.base + g.rows.len() && 0 <= col < g.cols {
        g.rows[row - g.base].seqs[col]
    } else {
        0
    }
}

/// The cell stored at absolute row `row`, column `col`, or a blank one
/// when the grid does not hold that cell yet.
pub open spec fn prior_cell(g: TerminalGridView, row: int, col: int) -> PackedCell {
    if g.base <= row < g.base + g.rows.len() && 0 <= col < g.cols {
        g.rows[row - g.base].cells[col]
    } else {
        blank_cell()
    }
}

/// The larger of two sequence numbers.
pub open spec fn max_seq(a: SeqNum, b: SeqNum) -> SeqNum {
    if a >= b {
        a
    } else {
        b
    }
}

/// Freezing an active row and thawing it again gives back the same grid.
pub proof fn law_freeze_thaw_roundtrip(g: AtomicGridView, row: int)
    requires
        0 <= row < g.rows.len(),
        !g.rows[row].frozen,
    ensures
        spec_thaw(spec_freeze(g, row), row) == g,
{
    assert(spec_thaw(spec_freeze(g, row), row).rows =~= g.rows);
}

/// In the plain grid the larger sequence wins: after a write to an active
/// cell the cell holds the larger of its old and the written sequence, and
/// the written payload exactly when the written sequence was newer.
pub proof fn law_atomic_latest_seq_wins(g: AtomicGridView, row: int, col: int, seq: SeqNum, payload: u64)
    requires
        0 <= row < g.rows.len(),
        !g.rows[row].frozen,
        0 <= col < g.cols,
        g.rows[row].payloads.len() == g.cols,
        g.rows[row].seqs.len() == g.cols,
    ensures
        ({
            let (g2, res) = spec_atomic_write(g, row, col, seq, payload);
            &&& res is Ok
            &&& g2.rows[row].seqs[col] == max_seq(g.rows[row].seqs[col], seq)
            &&& seq > g.rows[row].seqs[col] ==> g2.rows[row].payloads[col] == payload && res == Ok::<
                WriteOutcome,
                WriteError,
            >(WriteOutcome::Written)
            &&& seq <= g.rows[row].seqs[col] ==> g2 == g
        }),
{
}

/// After a write to the terminal grid succeeds, at most `history_limit`
/// rows are stored.
pub proof fn law_write_keeps_history_limit(g: TerminalGridView, row: int, col: int, seq: SeqNum, cell: PackedCell)
    requires
        spec_write_cell(g, row, col, seq, cell).1 is Ok,
    ensures
        spec_write_cell(g, row, col, seq, cell).0.rows.len() <= spec_write_cell(g, row, col, seq, cell).0.history_limit,
{
}

/// After a rectangle fill of the terminal grid succeeds, at most
/// `history_limit` rows are stored.
pub proof fn law_fill_keeps_history_limit(
    g: TerminalGridView,
    row0: int,
    col0: int,
    row1: int,
    col1: int,
    seq: SeqNum,
    cell: PackedCell,
)
    requires
        g.rows.len() <= g.history_limit,
        spec_fill_rect(g, row0, col0, row1, col1, seq, cell).1 is Ok,
    ensures
        spec_fill_rect(g, row0, col0, row1, col1, seq, cell).0.rows.len() <= spec_fill_rect(
            g,
            row0,
            col0,
            row1,
            col1,
            seq,
            cell,
        ).0.history_limit,
{
}

/// In the terminal grid the larger sequence wins: after a write whose row
/// is still stored, the cell at (`row`, `col`) holds the larger of its prior
/// sequence (0 for a cell the grid did not hold) and `seq`, and holds `cell`
/// when `seq` was newer. The row is found at index `row - base`.
pub proof fn law_terminal_write_then_read(g: TerminalGridView, row: int, col: int, seq: SeqNum, cell: PackedCell)
    requires
        terminal_view_wf(g),
        g.base <= row < u64::MAX,
        0 <= col,
        row >= spec_write_cell(g, row, col, seq, cell).0.base,
    ensures
        ({
            let (g2, res) = spec_write_cell(g, row, col, seq, cell);
            let t = row - g2.base;
            &&& 0 <= t < g2.rows.len()
            &&& g2.rows[t].seqs[col] == max_seq(prior_seq(g, row, col), seq)
            &&& res == Ok::<WriteOutcome, WriteError>(super::outcome_for(prior_seq(g, row, col), seq))
            &&& seq > prior_seq(g, row, col) ==> g2.rows[t].cells[col] == cell
        }),
{
    let new_cols = if col + 1 > g.cols {
        (col + 1) as nat
    } else {
        g.cols
    };
    let widened = widen_rows(g.rows, g.cols, (col + 1) as nat);
    let ext = extend_rows(widened, g.base, new_cols, row);
    let t0 = row - g.base;
    assert(widened.len() == g.rows.len());
    assert(0 <= t0 < ext.len());
    assert(ext[t0].seqs.len() == new_cols) by {
        if t0 < g.rows.len() {
            assert(widened[t0].seqs.len() == new_cols);
        }
    }
    assert(ext[t0].seqs[col] == prior_seq(g, row, col)) by {
        if t0 < g.rows.len() {
            if col < g.cols {
                assert(widened[t0].seqs[col] == g.rows[t0].seqs[col]);
            } else {
                assert(widened[t0].seqs[col] == 0u64);
            }
        }
    }
    let upd = ext.update(t0, write_row(ext[t0], col, seq, cell));
    let g_pre = TerminalGridView { rows: upd, cols: new_cols, ..g };
    let g2 = trimmed_view(g_pre);
    assert(spec_write_cell(g, row, col, seq, cell).0 == g2);
    if g_pre.rows.len() > g_pre.history_limit {
        let k = (g_pre.rows.len() - g_pre.history_limit) as int;
        assert(g2.base == sat_add(g.base, k));
        assert(g2.base < u64::MAX);
        assert(g2.rows[row - g2.base] == upd[t0]);
    }
}

/// Rows are numbered consecutively: the row stored at index `i` has id
/// `base + i`, and looking that id up gives index `i` back.
pub proof fn law_row_ids_roundtrip(g: TerminalGridView, i: int)
    requires
        0 <= i < g.rows.len(),
        i <= usize::MAX,
        g.base + i < u64::MAX,
    ensures
        sat_add(g.base, i) >= g.base,
        ((sat_add(g.base, i) - g.base) as u64) as usize == i,
{
}


/// Reading back a rectangle fill: for a cell (`row`, `col`) inside the
/// rectangle whose row is still stored afterwards, the cell holds the larger
/// of its prior sequence and `seq`, and holds `cell` when `seq` was newer,
/// its prior content otherwise. The row is found at index `row - base`.
pub proof fn law_fill_then_read(
    g: TerminalGridView,
    row0: int,
    col0: int,
    row1: int,
    col1: int,
    seq: SeqNum,
    cell: PackedCell,
    row: int,
    col: int,
)
    requires
        terminal_view_wf(g),
        g.base <= row0 <= row < row1,
        col0 <= col < col1,
        0 <= col0,
        row < u64::MAX,
        row >= spec_fill_rect(g, row0, col0, row1, col1, seq, cell).0.base,
    ensures
        ({
            let (g2, res) = spec_fill_rect(g, row0, col0, row1, col1, seq, cell);
            let t = row - g2.base;
            &&& res is Ok
            &&& 0 <= t < g2.rows.len()
            &&& g2.rows[t].seqs[col] == max_seq(prior_seq(g, row, col), seq)
            &&& seq > prior_seq(g, row, col) ==> g2.rows[t].cells[col] == cell
            &&& seq <= prior_seq(g, row, col) ==> g2.rows[t].cells[col] == prior_cell(g, row, col)
        }),
{
    lemma_fill_row_at(g, row0, col0, row1, col1, seq, cell, row, col);
}

/// A rectangle fill leaves every stored cell outside the rectangle as it
/// was, when its row is still stored afterwards.
pub proof fn law_fill_keeps_outside(
    g: TerminalGridView,
    row0: int,
    col0: int,
    row1: int,
    col1: int,
    seq: SeqNum,
    cell: PackedCell,
    row: int,
    col: int,
)
    requires
        terminal_view_wf(g),
        g.base <= row0 <= row1,
        0 <= col0 <= col1,
        g.base <= row < g.base + g.rows.len(),
        0 <= col < g.cols,
        !(row0 <= row < row1 && col0 <= col < col1),
        row < u64::MAX,
        row >= spec_fill_rect(g, row0, col0, row1, col1, seq, cell).0.base,
    ensures
        ({
            let g2 = spec_fill_rect(g, row0, col0, row1, col1, seq, cell).0;
            let t = row - g2.base;
            &&& 0 <= t < g2.rows.len()
            &&& g2.rows[t].cells[col] == g.rows[row - g.base].cells[col]
            &&& g2.rows[t].seqs[col] == g.rows[row - g.base].seqs[col]
        }),
{
    lemma_fill_row_at(g, row0, col0, row1, col1, seq, cell, row, col);
}

proof fn lemma_fill_row_at(
    g: TerminalGridView,
    row0: int,
    col0: int,
    row1: int,
    col1: int,
    seq: SeqNum,
    cell: PackedCell,
    row: int,
    col: int,
)
    requires
        terminal_view_wf(g),
        g.base <= row0 <= row1,
        0 <= col0 <= col1,
        g.base <= row,
        row0 <= row < row1 || row < g.base + g.rows.len(),
        0 <= col,
        col < col1 || col < g.cols,
        row < u64::MAX,
        row >= spec_fill_rect(g, row0, col0, row1, col1, seq, cell).0.base,
    ensures
        ({
            let (g2, res) = spec_fill_rect(g, row0, col0, row1, col1, seq, cell);
            let new_cols = if col1 > g.cols {
                col1 as nat
            } else {
                g.cols
            };
            let t = row - g2.base;
            let before = RowView {
                cells: Seq::new(new_cols, |c: int| prior_cell(g, row, c)),
                seqs: Seq::new(new_cols, |c: int| prior_seq(g, row, c)),
            };
            &&& res is Ok
            &&& 0 <= t < g2.rows.len()
            &&& g2.rows[t].cells.len() == new_cols
            &&& g2.rows[t].seqs.len() == new_cols
            &&& g2.rows[t] == if row0 <= row < row1 {
                fill_row(before, col0, col1, seq, cell)
            } else {
                before
            }
        }),
{
    let new_cols = if col1 > g.cols {
        col1 as nat
    } else {
        g.cols
    };
    let widened = widen_rows(g.rows, g.cols, col1 as nat);
    let ext = if row0 < row1 {
        extend_rows(widened, g.base, new_cols, row1 - 1)
    } else {
        widened
    };
    let t0 = row - g.base;
    assert(widened.len() == g.rows.len());
    assert(0 <= t0 < ext.len());
    let before = RowView {
        cells: Seq::new(new_cols, |c: int| prior_cell(g, row, c)),
        seqs: Seq::new(new_cols, |c: int| prior_seq(g, row, c)),
    };
    assert(ext[t0] =~= before) by {
        if t0 < g.rows.len() {
            assert(g.rows[t0].cells.len() == g.cols && g.rows[t0].seqs.len() == g.cols);
            assert(ext[t0] == widened[t0]);
            assert(ext[t0].cells =~= before.cells);
            assert(ext[t0].seqs =~= before.seqs);
        } else {
            assert(ext[t0].cells =~= before.cells);
            assert(ext[t0].seqs =~= before.seqs);
        }
    }
    let lo = row0 - g.base;
    let hi = row1 - g.base;
    let filled = Seq::new(
        ext.len(),
        |i: int|
            if lo <= i < hi {
                fill_row(ext[i], col0, col1, seq, cell)
            } else {
                ext[i]
            },
    );
    let g_pre = TerminalGridView { rows: filled, cols: new_cols, ..g };
    let g2 = trimmed_view(g_pre);
    assert(spec_fill_rect(g, row0, col0, row1, col1, seq, cell).0 == g2);
    if g_pre.rows.len() > g_pre.history_limit {
        let k = (g_pre.rows.len() - g_pre.history_limit) as int;
        assert(g2.base == sat_add(g.base, k));
        assert(g2.base < u64::MAX);
        assert(g2.rows[row - g2.base] == filled[t0]);
    }
}


/// A write's outcome says what happened to the cell: it was written exactly
/// when the write's sequence was newer than the stored one, and a skipped
/// write says whether it was older or the same.
pub proof fn law_write_outcome_reports_seq_order(cur: SeqNum, new: SeqNum)
    ensures
        (super::outcome_for(cur, new) == WriteOutcome::Written) <==> new > cur,
        (super::outcome_for(cur, new) == WriteOutcome::SkippedEqual) <==> new == cur,
        (super::outcome_for(cur, new) == WriteOutcome::SkippedOlder) <==> new < cur,
{
}

} // verus!

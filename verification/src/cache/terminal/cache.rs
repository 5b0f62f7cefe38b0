//! The terminal grid: rows of packed cells addressed by absolute row ids,
//! growing on demand and keeping at most `history_limit` rows of scrollback.

use std::collections::VecDeque;

use vstd::prelude::*;

use super::packed::{
    Cell, PackedCell, Style, StyleId, StyleTable, pack_cell, spec_default_style, spec_pack, unpack_cell,
};
use crate::cache::grid::count_older;
use crate::cache::laws::terminal_view_wf;
use crate::cache::{CellSnapshot, GridCache, SeqNum, WriteError, WriteOutcome, outcome_for};

verus! {

/// The number of rows a grid keeps by default.
pub const DEFAULT_HISTORY_LIMIT: usize = 10000;

/// Rows dropped from the front of the grid: `count` rows starting at
/// absolute row `start`.
#[derive(Clone, Copy, Debug, PartialEq, Eq, Structural)]
pub struct TrimEvent {
    pub start: u64,
    pub count: usize,
}

/// The abstract content of one row.
#[verifier::ext_equal]
pub struct RowView {
    pub cells: Seq<PackedCell>,
    pub seqs: Seq<SeqNum>,
}

/// The abstract state of a terminal grid. Row `i` of `rows` has absolute id
/// `sat_add(base, i)`.
#[verifier::ext_equal]
pub struct TerminalGridView {
    pub rows: Seq<RowView>,
    pub base: u64,
    pub cols: nat,
    pub history_limit: nat,
    pub trim_events: Seq<TrimEvent>,
    pub viewport_rows: nat,
    pub viewport_cols: nat,
    pub styles: Seq<Style>,
}

/// `a + b`, saturating at `u64::MAX`.
pub open spec fn sat_add(a: u64, b: int) -> u64 {
    if a + b >= u64::MAX {
        u64::MAX
    } else {
        (a + b) as u64
    }
}

/// A space in the default style.
pub open spec fn blank_cell() -> PackedCell {
    PackedCell::spec_from_raw(spec_pack(' ', StyleId(0)))
}

/// A row of `cols` blank cells with sequence 0.
pub open spec fn blank_row(cols: nat) -> RowView {
    RowView { cells: Seq::new(cols, |_i: int| blank_cell()), seqs: Seq::new(cols, |_i: int| 0u64) }
}

/// Every row widened to `new_cols` columns with blank cells, when that is
/// more than `cols`.
pub open spec fn widen_rows(rows: Seq<RowView>, cols: nat, new_cols: nat) -> Seq<RowView> {
    if new_cols <= cols {
        rows
    } else {
        Seq::new(
            rows.len(),
            |i: int|
                RowView {
                    cells: rows[i].cells + Seq::new((new_cols - cols) as nat, |_j: int| blank_cell()),
                    seqs: rows[i].seqs + Seq::new((new_cols - cols) as nat, |_j: int| 0u64),
                },
        )
    }
}

/// Blank rows appended until the row with absolute id `absolute` exists.
pub open spec fn extend_rows(rows: Seq<RowView>, base: u64, cols: nat, absolute: int) -> Seq<RowView> {
    if absolute < base + rows.len() {
        rows
    } else {
        rows + Seq::new((absolute - base + 1 - rows.len()) as nat, |_i: int| blank_row(cols))
    }
}

/// Row `r` after writing `cell` at `col` with sequence `seq`, if `seq` is newer.
pub open spec fn write_row(r: RowView, col: int, seq: SeqNum, cell: PackedCell) -> RowView {
    if seq > r.seqs[col] {
        RowView { cells: r.cells.update(col, cell), seqs: r.seqs.update(col, seq) }
    } else {
        r
    }
}

/// Row `r` with the columns in [col0, col1) whose sequence is older than
/// `seq` overwritten by `cell` / `seq`.
pub open spec fn fill_row(r: RowView, col0: int, col1: int, seq: SeqNum, cell: PackedCell) -> RowView {
    RowView {
        cells: Seq::new(
            r.cells.len(),
            |c: int|
                if col0 <= c < col1 && r.seqs[c] < seq {
                    cell
                } else {
                    r.cells[c]
                },
        ),
        seqs: Seq::new(
            r.seqs.len(),
            |c: int|
                if col0 <= c < col1 && r.seqs[c] < seq {
                    seq
                } else {
                    r.seqs[c]
                },
        ),
    }
}

/// Number of cells in rows [row0, row1) x columns [col0, col1) whose
/// sequence is older than `seq`.
pub open spec fn rows_older(rows: Seq<RowView>, row0: int, row1: int, col0: int, col1: int, seq: SeqNum) -> nat
    decreases row1 - row0,
{
    if row1 <= row0 {
        0
    } else {
        rows_older(rows, row0, row1 - 1, col0, col1, seq) + count_older(rows[row1 - 1].seqs, col0, col1, seq)
    }
}

/// The grid after dropping front rows until at most `history_limit` remain;
/// the drop is recorded as a trim event.
pub open spec fn trimmed_view(g: TerminalGridView) -> TerminalGridView {
    if g.rows.len() <= g.history_limit {
        g
    } else {
        let k = (g.rows.len() - g.history_limit) as nat;
        TerminalGridView {
            rows: g.rows.skip(k as int),
            base: sat_add(g.base, k as int),
            trim_events: g.trim_events.push(TrimEvent { start: g.base, count: k as usize }),
            ..g
        }
    }
}

/// The state and result of writing `cell` with sequence `seq` at absolute
/// row `row`, column `col`.
pub open spec fn spec_write_cell(g: TerminalGridView, row: int, col: int, seq: SeqNum, cell: PackedCell) -> (
    TerminalGridView,
    Result<WriteOutcome, WriteError>,
) {
    let new_cols = if col + 1 > g.cols {
        (col + 1) as nat
    } else {
        g.cols
    };
    let widened = widen_rows(g.rows, g.cols, (col + 1) as nat);
    if row < g.base {
        (TerminalGridView { rows: widened, cols: new_cols, ..g }, Err(WriteError::CoordOutOfBounds))
    } else {
        let ext = extend_rows(widened, g.base, new_cols, row);
        let t = row - g.base;
        let g2 = TerminalGridView { rows: ext.update(t, write_row(ext[t], col, seq, cell)), cols: new_cols, ..g };
        (trimmed_view(g2), Ok(outcome_for(ext[t].seqs[col], seq)))
    }
}

/// The state and result of filling absolute rows [row0, row1) x columns
/// [col0, col1) with `cell` where `seq` is newer.
pub open spec fn spec_fill_rect(
    g: TerminalGridView,
    row0: int,
    col0: int,
    row1: int,
    col1: int,
    seq: SeqNum,
    cell: PackedCell,
) -> (TerminalGridView, Result<(usize, usize), WriteError>) {
    if row0 > row1 || col0 > col1 {
        (g, Ok((0, 0)))
    } else {
        let new_cols = if col1 > g.cols {
            col1 as nat
        } else {
            g.cols
        };
        let widened = widen_rows(g.rows, g.cols, col1 as nat);
        if row0 < row1 && row0 < g.base {
            (TerminalGridView { rows: widened, cols: new_cols, ..g }, Err(WriteError::CoordOutOfBounds))
        } else {
            let ext = if row0 < row1 {
                extend_rows(widened, g.base, new_cols, row1 - 1)
            } else {
                widened
            };
            let lo = row0 - g.base;
            let hi = row1 - g.base;
            let filled = Seq::new(
                ext.len(),
                |i: int|
                    if lo <= i < hi {
                        fill_row(ext[i], col0, col1, seq, cell)
                    } else {
                        ext[i]
                    },
            );
            let w = rows_older(ext, lo, hi, col0, col1, seq);
            (
                trimmed_view(TerminalGridView { rows: filled, cols: new_cols, ..g }),
                Ok((w as usize, ((row1 - row0) * (col1 - col0) - w) as usize)),
            )
        }
    }
}

/// One stored row.
struct RowEntry {
    absolute: u64,
    cells: Vec<PackedCell>,
    seqs: Vec<SeqNum>,
    max_seq: SeqNum,
}

impl RowEntry {
    spec fn view_entry(&self) -> RowView {
        RowView { cells: self.cells@, seqs: self.seqs@ }
    }

    fn new(absolute: u64, cols: usize, default_cell: PackedCell, default_seq: SeqNum) -> (res: Self)
        ensures
            res.absolute == absolute,
            res.cells@ == Seq::new(cols as nat, |_i: int| default_cell),
            res.seqs@ == Seq::new(cols as nat, |_i: int| default_seq),
    {
        let mut cells: Vec<PackedCell> = Vec::with_capacity(cols);
        let mut seqs: Vec<SeqNum> = Vec::with_capacity(cols);
        let mut i: usize = 0;
        while i < cols
            invariant
                i <= cols,
                cells@ == Seq::new(i as nat, |_i: int| default_cell),
                seqs@ == Seq::new(i as nat, |_i: int| default_seq),
            decreases cols - i,
        {
            cells.push(default_cell);
            seqs.push(default_seq);
            i = i + 1;
        }
        RowEntry { absolute, cells, seqs, max_seq: default_seq }
    }

    fn ensure_cols(&mut self, cols: usize, default_cell: PackedCell, default_seq: SeqNum)
        requires
            old(self).cells@.len() == old(self).seqs@.len(),
        ensures
            final(self).absolute == old(self).absolute,
            cols <= old(self).cells@.len() ==> final(self).view_entry() == old(self).view_entry(),
            cols > old(self).cells@.len() ==> final(self).cells@ == old(self).cells@ + Seq::new(
                (cols - old(self).cells@.len()) as nat,
                |_i: int| default_cell,
            ) && final(self).seqs@ == old(self).seqs@ + Seq::new(
                (cols - old(self).cells@.len()) as nat,
                |_i: int| default_seq,
            ),
    {
        if cols <= self.cells.len() {
            return;
        }
        let current_len = self.cells.len();
        let ghost old_cells = self.cells@;
        let ghost old_seqs = self.seqs@;
        let mut i = current_len;
        while i < cols
            invariant
                current_len <= i <= cols,
                current_len == old_cells.len(),
                self.cells@ == old_cells + Seq::new((i - current_len) as nat, |_i: int| default_cell),
                self.seqs@ == old_seqs + Seq::new((i - current_len) as nat, |_i: int| default_seq),
                self.absolute == old(self).absolute,
            decreases cols - i,
        {
            self.cells.push(default_cell);
            self.seqs.push(default_seq);
            proof {
                assert(old_cells + Seq::new((i + 1 - current_len) as nat, |_i: int| default_cell) =~= (old_cells
                    + Seq::new((i - current_len) as nat, |_i: int| default_cell)).push(default_cell));
                assert(old_seqs + Seq::new((i + 1 - current_len) as nat, |_i: int| default_seq) =~= (old_seqs
                    + Seq::new((i - current_len) as nat, |_i: int| default_seq)).push(default_seq));
            }
            i = i + 1;
        }
        if current_len == 0 && default_seq > self.max_seq {
            self.max_seq = default_seq;
        }
    }

    fn write_cell_if_newer(&mut self, col: usize, seq: SeqNum, cell: PackedCell) -> (res: Result<
        WriteOutcome,
        WriteError,
    >)
        requires
            old(self).cells@.len() == old(self).seqs@.len(),
        ensures
            final(self).absolute == old(self).absolute,
            col >= old(self).cells@.len() ==> res == Err::<WriteOutcome, WriteError>(WriteError::CoordOutOfBounds)
                && final(self).view_entry() == old(self).view_entry(),
            col < old(self).cells@.len() ==> res == Ok::<WriteOutcome, WriteError>(
                outcome_for(old(self).seqs@[col as int], seq),
            ) && final(self).view_entry() == write_row(old(self).view_entry(), col as int, seq, cell),
    {
        if col >= self.cells.len() {
            return Err(WriteError::CoordOutOfBounds);
        }
        let current_seq = self.seqs[col];
        if seq < current_seq {
            return Ok(WriteOutcome::SkippedOlder);
        }
        if seq == current_seq {
            return Ok(WriteOutcome::SkippedEqual);
        }
        self.cells.set(col, cell);
        self.seqs.set(col, seq);
        if seq > self.max_seq {
            self.max_seq = seq;
        }
        Ok(WriteOutcome::Written)
    }

    fn fill_rect_if_newer(&mut self, col0: usize, col1: usize, seq: SeqNum, cell: PackedCell) -> (res: Result<
        (usize, usize),
        WriteError,
    >)
        requires
            old(self).cells@.len() == old(self).seqs@.len(),
        ensures
            final(self).absolute == old(self).absolute,
            (col0 > col1 || col1 > old(self).cells@.len()) ==> res == Err::<(usize, usize), WriteError>(
                WriteError::CoordOutOfBounds,
            ) && final(self).view_entry() == old(self).view_entry(),
            (col0 <= col1 && col1 <= old(self).cells@.len()) ==> {
                let w = count_older(old(self).seqs@, col0 as int, col1 as int, seq);
                &&& res == Ok::<(usize, usize), WriteError>((w as usize, (col1 - col0 - w) as usize))
                &&& final(self).view_entry() == fill_row(old(self).view_entry(), col0 as int, col1 as int, seq, cell)
            },
    {
        if col0 > col1 || col1 > self.cells.len() {
            return Err(WriteError::CoordOutOfBounds);
        }
        let ghost old_c = self.cells@;
        let ghost old_s = self.seqs@;
        let mut written: usize = 0;
        let mut skipped: usize = 0;
        let mut col = col0;
        while col < col1
            invariant
                col0 <= col <= col1 <= old_c.len(),
                old_c.len() == old_s.len(),
                self.cells@.len() == old_c.len(),
                self.seqs@.len() == old_s.len(),
                self.absolute == old(self).absolute,
                forall|c: int|
                    0 <= c < old_c.len() ==> #[trigger] self.cells@[c] == (if col0 <= c < col && old_s[c] < seq {
                        cell
                    } else {
                        old_c[c]
                    }),
                forall|c: int|
                    0 <= c < old_s.len() ==> #[trigger] self.seqs@[c] == (if col0 <= c < col && old_s[c] < seq {
                        seq
                    } else {
                        old_s[c]
                    }),
                written == count_older(old_s, col0 as int, col as int, seq),
                written + skipped == col - col0,
            decreases col1 - col,
        {
            let current_seq = self.seqs[col];
            if seq <= current_seq {
                skipped = skipped + 1;
            } else {
                self.cells.set(col, cell);
                self.seqs.set(col, seq);
                written = written + 1;
            }
            col = col + 1;
        }
        if written > 0 && seq > self.max_seq {
            self.max_seq = seq;
        }
        assert(self.view_entry().cells =~= fill_row(old(self).view_entry(), col0 as int, col1 as int, seq, cell).cells);
        assert(self.view_entry().seqs =~= fill_row(old(self).view_entry(), col0 as int, col1 as int, seq, cell).seqs);
        Ok((written, skipped))
    }

    fn snapshot_row(&self, out: &mut [u64]) -> (res: Result<(), WriteError>)
        ensures
            old(out)@.len() < self.cells@.len() ==> res == Err::<(), WriteError>(WriteError::CoordOutOfBounds)
                && final(out)@ == old(out)@,
            old(out)@.len() >= self.cells@.len() ==> res is Ok && final(out)@ == Seq::new(
                old(out)@.len(),
                |i: int|
                    if i < self.cells@.len() {
                        self.cells@[i].raw_value()
                    } else {
                        old(out)@[i]
                    },
            ),
    {
        if out.len() < self.cells.len() {
            return Err(WriteError::CoordOutOfBounds);
        }
        let n = self.cells.len();
        let mut idx: usize = 0;
        while idx < n
            invariant
                n == self.cells@.len(),
                n <= out@.len(),
                out@.len() == old(out)@.len(),
                idx <= n,
                forall|i: int|
                    0 <= i < out@.len() ==> #[trigger] out@[i] == (if i < idx {
                        self.cells@[i].raw_value()
                    } else {
                        old(out)@[i]
                    }),
            decreases n - idx,
        {
            out[idx] = self.cells[idx].raw();
            idx = idx + 1;
        }
        assert(out@ =~= Seq::new(
            old(out)@.len(),
            |i: int|
                if i < self.cells@.len() {
                    self.cells@[i].raw_value()
                } else {
                    old(out)@[i]
                },
        ));
        Ok(())
    }

    fn cell_snapshot(&self, col: usize) -> (res: Option<CellSnapshot>)
        requires
            self.cells@.len() == self.seqs@.len(),
        ensures
            col >= self.cells@.len() ==> res is None,
            col < self.cells@.len() ==> res == Some(
                CellSnapshot { payload: self.cells@[col as int].raw_value(), seq: self.seqs@[col as int] },
            ),
    {
        if col < self.cells.len() {
            let seq = if col < self.seqs.len() {
                self.seqs[col]
            } else {
                0
            };
            Some(CellSnapshot::new(self.cells[col].raw(), seq))
        } else {
            None
        }
    }
}

/// The rows of the grid and the numbering of their absolute ids.
struct GridInner {
    rows: VecDeque<RowEntry>,
    base: u64,
    cols: usize,
    next_row_id: u64,
}

impl GridInner {
    /// Every row is `cols` wide, row `i` has absolute id `sat_add(base, i)`
    /// and the next id to hand out follows the last row.
    spec fn inv(&self) -> bool {
        &&& forall|i: int|
            0 <= i < self.rows@.len() ==> (#[trigger] self.rows@[i]).cells@.len() == self.cols
                && self.rows@[i].seqs@.len() == self.cols && self.rows@[i].absolute == sat_add(self.base, i)
        &&& self.next_row_id == sat_add(self.base, self.rows@.len() as int)
    }

    spec fn view_rows(&self) -> Seq<RowView> {
        Seq::new(self.rows@.len(), |i: int| self.rows@[i].view_entry())
    }

    fn new(rows: usize, cols: usize, default_cell: PackedCell, default_seq: SeqNum) -> (res: Self)
        requires
            default_cell == blank_cell(),
            default_seq == 0,
        ensures
            res.inv(),
            res.base == 0,
            res.cols == cols,
            res.view_rows() == Seq::new(rows as nat, |_i: int| blank_row(cols as nat)),
    {
        let mut entries: VecDeque<RowEntry> = VecDeque::with_capacity(rows);
        let mut i: usize = 0;
        while i < rows
            invariant
                i <= rows,
                entries@.len() == i,
                forall|k: int|
                    0 <= k < i ==> (#[trigger] entries@[k]).view_entry() == blank_row(cols as nat)
                        && entries@[k].absolute == k,
                default_cell == blank_cell(),
                default_seq == 0,
            decreases rows - i,
        {
            let e = RowEntry::new(i as u64, cols, default_cell, default_seq);
            assert(e.view_entry() =~= blank_row(cols as nat));
            entries.push_back(e);
            i = i + 1;
        }
        let res = GridInner { rows: entries, base: 0, cols, next_row_id: rows as u64 };
        assert(res.view_rows() =~= Seq::new(rows as nat, |_i: int| blank_row(cols as nat)));
        res
    }

    fn len(&self) -> (res: usize)
        ensures
            res == self.rows@.len(),
    {
        self.rows.len()
    }

    fn cols(&self) -> (res: usize)
        ensures
            res == self.cols,
    {
        self.cols
    }

    fn ensure_cols(&mut self, cols: usize, default_cell: PackedCell, default_seq: SeqNum)
        requires
            old(self).inv(),
            default_cell == blank_cell(),
            default_seq == 0,
        ensures
            final(self).inv(),
            final(self).base == old(self).base,
            final(self).cols == (if cols > old(self).cols {
                cols
            } else {
                old(self).cols
            }),
            final(self).view_rows() == widen_rows(old(self).view_rows(), old(self).cols as nat, cols as nat),
    {
        if cols <= self.cols {
            return;
        }
        let n = self.rows.len();
        let ghost old_rows = self.rows@;
        let mut i: usize = 0;
        while i < n
            invariant
                n == old_rows.len(),
                old_rows == old(self).rows@,
                i <= n,
                self.rows@.len() == n,
                self.base == old(self).base,
                self.cols == old(self).cols,
                cols > self.cols,
                self.next_row_id == old(self).next_row_id,
                old(self).inv(),
                default_cell == blank_cell(),
                default_seq == 0,
                forall|k: int| 0 <= k < n - i ==> #[trigger] self.rows@[k] == old_rows[k + i],
                forall|k: int|
                    0 <= k < i ==> {
                        let e = #[trigger] self.rows@[n - i + k];
                        &&& e.absolute == old_rows[k].absolute
                        &&& e.cells@ == old_rows[k].cells@ + Seq::new(
                            (cols - self.cols) as nat,
                            |_j: int| default_cell,
                        )
                        &&& e.seqs@ == old_rows[k].seqs@ + Seq::new((cols - self.cols) as nat, |_j: int| default_seq)
                    },
            decreases n - i,
        {
            let ghost before = self.rows@;
            let popped = self.rows.pop_front();
            let mut r = match popped {
                Some(r) => r,
                None => {
                    proof {
                        assert(false);
                    }
                    RowEntry { absolute: 0, cells: Vec::new(), seqs: Vec::new(), max_seq: 0 }
                },
            };
            assert(r == old_rows[i as int]);
            r.ensure_cols(cols, default_cell, default_seq);
            self.rows.push_back(r);
            proof {
                assert forall|k: int| 0 <= k < n - (i + 1) implies #[trigger] self.rows@[k] == old_rows[k + i + 1] by {
                    assert(self.rows@[k] == before[k + 1]);
                }
                assert forall|k: int| 0 <= k < i + 1 implies {
                    let e = #[trigger] self.rows@[n - (i + 1) + k];
                    &&& e.absolute == old_rows[k].absolute
                    &&& e.cells@ == old_rows[k].cells@ + Seq::new((cols - self.cols) as nat, |_j: int| default_cell)
                    &&& e.seqs@ == old_rows[k].seqs@ + Seq::new((cols - self.cols) as nat, |_j: int| default_seq)
                } by {
                    if k < i {
                        assert(self.rows@[n - (i + 1) + k] == before[n - i + k]);
                    }
                }
            }
            i = i + 1;
        }
        self.cols = cols;
        proof {
            assert forall|i: int| 0 <= i < self.rows@.len() implies (#[trigger] self.rows@[i]).cells@.len()
                == self.cols && self.rows@[i].seqs@.len() == self.cols && self.rows@[i].absolute == sat_add(
                self.base,
                i,
            ) by {
                assert(self.rows@[n - n + i].absolute == old_rows[i].absolute);
                assert(old_rows[i] == old(self).rows@[i]);
            }
            let w = widen_rows(old(self).view_rows(), old(self).cols as nat, cols as nat);
            assert forall|i: int| 0 <= i < self.rows@.len() implies #[trigger] self.view_rows()[i] == w[i] by {
                assert(self.rows@[n - n + i].cells@ == old_rows[i].cells@ + Seq::new(
                    (cols - old(self).cols) as nat,
                    |_j: int| default_cell,
                ));
                assert(self.view_rows()[i].cells =~= w[i].cells);
                assert(self.view_rows()[i].seqs =~= w[i].seqs);
            }
            assert(self.view_rows() =~= w);
        }
    }

    /// Appends blank rows until the row with id `absolute` exists and
    /// returns its index; refuses ids below the first stored row.
    fn ensure_row(&mut self, absolute: u64, default_cell: PackedCell, default_seq: SeqNum) -> (res: Result<
        usize,
        WriteError,
    >)
        requires
            old(self).inv(),
            absolute < u64::MAX,
            default_cell == blank_cell(),
            default_seq == 0,
        ensures
            final(self).inv(),
            final(self).base == old(self).base,
            final(self).cols == old(self).cols,
            absolute < old(self).base ==> res == Err::<usize, WriteError>(WriteError::CoordOutOfBounds)
                && final(self).view_rows() == old(self).view_rows(),
            absolute >= old(self).base ==> res == Ok::<usize, WriteError>((absolute - old(self).base) as usize)
                && final(self).view_rows() == extend_rows(
                old(self).view_rows(),
                old(self).base,
                old(self).cols as nat,
                absolute as int,
            ) && absolute - old(self).base < final(self).rows@.len(),
    {
        if absolute < self.base {
            return Err(WriteError::CoordOutOfBounds);
        }
        let ghost old_view = self.view_rows();
        let ghost old_len = self.rows@.len();
        while absolute >= self.next_row_id
            invariant
                self.inv(),
                self.base == old(self).base,
                self.cols == old(self).cols,
                absolute < u64::MAX,
                absolute >= self.base,
                default_cell == blank_cell(),
                default_seq == 0,
                old_len == old(self).rows@.len(),
                old_view == old(self).view_rows(),
                self.rows@.len() >= old_len,
                self.rows@.len() > old_len ==> self.base + self.rows@.len() <= absolute + 1,
                self.view_rows() == old_view + Seq::new(
                    (self.rows@.len() - old_len) as nat,
                    |_i: int| blank_row(self.cols as nat),
                ),
            decreases u64::MAX - self.next_row_id,
        {
            let next_abs = self.next_row_id;
            let e = RowEntry::new(next_abs, self.cols, default_cell, default_seq);
            assert(e.view_entry() =~= blank_row(self.cols as nat));
            let ghost before = self.view_rows();
            self.rows.push_back(e);
            self.next_row_id = self.next_row_id + 1;
            proof {
                assert(self.view_rows() =~= before.push(blank_row(self.cols as nat)));
                assert(self.view_rows() =~= old_view + Seq::new(
                    (self.rows@.len() - old_len) as nat,
                    |_i: int| blank_row(self.cols as nat),
                ));
            }
        }
        proof {
            assert(self.view_rows() =~= extend_rows(old_view, self.base, self.cols as nat, absolute as int));
        }
        let offset = absolute - self.base;
        assert(offset < self.rows@.len());
        let index = offset as usize;
        if index >= self.rows.len() {
            return Err(WriteError::CoordOutOfBounds);
        }
        Ok(index)
    }

    /// Drops up to `count` rows from the front.
    fn trim_front(&mut self, count: usize) -> (res: Option<TrimEvent>)
        requires
            old(self).inv(),
        ensures
            final(self).inv(),
            final(self).cols == old(self).cols,
            ({
                let k = if count < old(self).rows@.len() {
                    count as int
                } else {
                    old(self).rows@.len() as int
                };
                &&& k == 0 ==> res is None && final(self).view_rows() == old(self).view_rows() && final(self).base
                    == old(self).base
                &&& k > 0 ==> res == Some(TrimEvent { start: old(self).base, count: k as usize })
                    && final(self).view_rows() == old(self).view_rows().skip(k) && final(self).base == sat_add(
                    old(self).base,
                    k,
                )
            }),
    {
        if count == 0 {
            return None;
        }
        let ghost old_rows = self.rows@;
        let mut trimmed: usize = 0;
        while trimmed < count
            invariant
                trimmed <= count,
                trimmed <= old_rows.len(),
                old_rows == old(self).rows@,
                self.rows@ == old_rows.skip(trimmed as int),
                self.base == old(self).base,
                self.cols == old(self).cols,
                self.next_row_id == old(self).next_row_id,
            ensures
                trimmed == count || trimmed == old_rows.len(),
                trimmed <= count,
                trimmed <= old_rows.len(),
                self.rows@ == old_rows.skip(trimmed as int),
                self.base == old(self).base,
                self.cols == old(self).cols,
                self.next_row_id == old(self).next_row_id,
            decreases count - trimmed,
        {
            if self.rows.pop_front().is_some() {
                trimmed = trimmed + 1;
                assert(self.rows@ =~= old_rows.skip(trimmed as int));
            } else {
                break;
            }
        }
        if trimmed == 0 {
            proof {
                assert(self.rows@ =~= old_rows);
                assert(self.view_rows() =~= old(self).view_rows());
            }
            return None;
        }
        let start = self.base;
        let ghost k = trimmed as int;
        assert(k == (if count < old_rows.len() {
            count as int
        } else {
            old_rows.len() as int
        }));
        if self.rows.len() > 0 {
            self.base = self.rows[0].absolute;
        } else {
            self.base = self.next_row_id;
        }
        proof {
            assert(self.base == sat_add(start, k));
            assert(self.view_rows() =~= old(self).view_rows().skip(k));
            assert forall|i: int| 0 <= i < self.rows@.len() implies (#[trigger] self.rows@[i]).absolute
                == sat_add(self.base, i) by {
                assert(self.rows@[i] == old_rows[i + k]);
            }
        }
        Some(TrimEvent { start, count: trimmed })
    }
}

/// A cell read from the terminal grid.
#[derive(Clone, Copy, Debug, PartialEq, Eq, Structural)]
pub struct TerminalCellSnapshot {
    pub cell: PackedCell,
    pub seq: SeqNum,
}

impl From<CellSnapshot> for TerminalCellSnapshot {
    fn from(snapshot: CellSnapshot) -> (res: TerminalCellSnapshot) {
        TerminalCellSnapshot { cell: PackedCell::from_raw(snapshot.payload), seq: snapshot.seq }
    }
}

impl vstd::std_specs::convert::FromSpecImpl<CellSnapshot> for TerminalCellSnapshot {
    open spec fn obeys_from_spec() -> bool {
        true
    }

    open spec fn from_spec(v: CellSnapshot) -> TerminalCellSnapshot {
        TerminalCellSnapshot { cell: PackedCell::spec_from_raw(v.payload), seq: v.seq }
    }
}

impl TerminalCellSnapshot {
    /// The cell's character and its style looked up in `style_table`; an
    /// id the table does not hold reads as the default style.
    pub fn unpack(&self, style_table: &StyleTable) -> (res: Cell)
        ensures
            super::packed::is_scalar_value(super::packed::spec_unpack_code(self.cell.raw_value())) ==> res.ch as u32
                == super::packed::spec_unpack_code(self.cell.raw_value()),
            !super::packed::is_scalar_value(super::packed::spec_unpack_code(self.cell.raw_value())) ==> res.ch
                == ' ',
            ({
                let id = super::packed::spec_unpack_style(self.cell.raw_value());
                &&& (id.0 as int) < style_table@.len() ==> res.style == style_table@[id.0 as int]
                &&& (id.0 as int) >= style_table@.len() ==> res.style == spec_default_style()
            }),
    {
        let (ch, id) = unpack_cell(self.cell);
        let style = match style_table.get(id) {
            Some(style) => style,
            None => Style::default_style(),
        };
        Cell { ch, style }
    }
}

/// Terminal grid cache storing packed cells alongside a deduplicated style
/// table. Rows are addressed by absolute ids for writes; older rows are
/// trimmed from the front once more than `history_limit` rows are stored.
pub struct TerminalGrid {
    inner: GridInner,
    pub style_table: StyleTable,
    default_cell: PackedCell,
    default_seq: SeqNum,
    history_limit: usize,
    trim_events: Vec<TrimEvent>,
    viewport_rows: usize,
    viewport_cols: usize,
}

impl View for TerminalGrid {
    type V = TerminalGridView;

    closed spec fn view(&self) -> TerminalGridView {
        TerminalGridView {
            rows: self.inner.view_rows(),
            base: self.inner.base,
            cols: self.inner.cols as nat,
            history_limit: self.history_limit as nat,
            trim_events: self.trim_events@,
            viewport_rows: self.viewport_rows as nat,
            viewport_cols: self.viewport_cols as nat,
            styles: self.style_table@,
        }
    }
}

/// The largest of `a` and `b`.
pub open spec fn max_nat(a: nat, b: nat) -> nat {
    if a >= b {
        a
    } else {
        b
    }
}

impl TerminalGrid {
    /// The grid's internal invariant: the rows are numbered consecutively,
    /// all rows have `cols` cells, the limits are positive and the style
    /// table is well formed.
    pub closed spec fn wf(&self) -> bool {
        &&& self.inner.inv()
        &&& self.default_cell == blank_cell()
        &&& self.default_seq == 0
        &&& self.history_limit >= 1
        &&& self.viewport_rows >= 1
        &&& self.viewport_cols >= 1
        &&& self.style_table.wf()
    }

    /// In a well-formed grid every row of the view is `cols` wide and the
    /// history limit is positive: what the cache laws ask of a view.
    pub proof fn lemma_view_wf(&self)
        requires
            self.wf(),
        ensures
            terminal_view_wf(self@),
    {
        assert forall|i: int| 0 <= i < self@.rows.len() implies (#[trigger] self@.rows[i]).cells.len() == self@.cols
            && self@.rows[i].seqs.len() == self@.cols by {
            assert(self.inner.rows@[i].cells@.len() == self.inner.cols);
        }
    }

    /// Everything but the rows and the trim events is the same in both grids.
    spec fn same_settings(&self, other: &Self) -> bool {
        &&& self.style_table == other.style_table
        &&& self.default_cell == other.default_cell
        &&& self.default_seq == other.default_seq
        &&& self.history_limit == other.history_limit
        &&& self.viewport_rows == other.viewport_rows
        &&& self.viewport_cols == other.viewport_cols
    }

    /// A `rows` x `cols` grid of blank cells with the default history limit.
    pub fn new(rows: usize, cols: usize) -> (res: Self)
        ensures
            res.wf(),
            res@ == (TerminalGridView {
                rows: Seq::new(rows as nat, |_i: int| blank_row(cols as nat)),
                base: 0,
                cols: cols as nat,
                history_limit: max_nat(DEFAULT_HISTORY_LIMIT as nat, max_nat(rows as nat, 1)),
                trim_events: Seq::empty(),
                viewport_rows: max_nat(rows as nat, 1),
                viewport_cols: max_nat(cols as nat, 1),
                styles: seq![spec_default_style()],
            }),
    {
        let style_table = StyleTable::new();
        let default_cell = pack_cell(' ', StyleId::default_id());
        let default_seq: SeqNum = 0;
        let inner = GridInner::new(rows, cols, default_cell, default_seq);
        let visible_rows = rows.max(1);
        let visible_cols = cols.max(1);
        let res = TerminalGrid {
            inner,
            style_table,
            default_cell,
            default_seq,
            history_limit: DEFAULT_HISTORY_LIMIT.max(visible_rows),
            trim_events: Vec::new(),
            viewport_rows: visible_rows,
            viewport_cols: visible_cols,
        };
        assert(res@ =~= TerminalGridView {
            rows: Seq::new(rows as nat, |_i: int| blank_row(cols as nat)),
            base: 0,
            cols: cols as nat,
            history_limit: max_nat(DEFAULT_HISTORY_LIMIT as nat, max_nat(rows as nat, 1)),
            trim_events: Seq::empty(),
            viewport_rows: max_nat(rows as nat, 1),
            viewport_cols: max_nat(cols as nat, 1),
            styles: seq![spec_default_style()],
        });
        res
    }

    /// A `rows` x `cols` grid of blank cells keeping at least `history_limit`
    /// rows (and never fewer than `rows`, nor fewer than one).
    pub fn with_history_limit(rows: usize, cols: usize, history_limit: usize) -> (res: Self)
        ensures
            res.wf(),
            res@ == (TerminalGridView {
                rows: Seq::new(rows as nat, |_i: int| blank_row(cols as nat)),
                base: 0,
                cols: cols as nat,
                history_limit: max_nat(history_limit as nat, max_nat(rows as nat, 1)),
                trim_events: Seq::empty(),
                viewport_rows: max_nat(rows as nat, 1),
                viewport_cols: max_nat(cols as nat, 1),
                styles: seq![spec_default_style()],
            }),
    {
        let mut grid = Self::new(rows, cols);
        grid.history_limit = history_limit.max(rows.max(1));
        grid
    }

    /// The viewport's (rows, cols).
    pub fn viewport_size(&self) -> (res: (usize, usize))
        ensures
            res.0 == self@.viewport_rows,
            res.1 == self@.viewport_cols,
    {
        (self.viewport_rows, self.viewport_cols)
    }

    /// Sets the viewport size; each dimension is at least one.
    pub fn set_viewport_size(&mut self, rows: usize, cols: usize)
        requires
            old(self).wf(),
        ensures
            final(self).wf(),
            final(self)@ == (TerminalGridView {
                viewport_rows: max_nat(rows as nat, 1),
                viewport_cols: max_nat(cols as nat, 1),
                ..old(self)@
            }),
    {
        self.viewport_rows = rows.max(1);
        self.viewport_cols = cols.max(1);
    }

    /// Drops every stored row and starts a fresh viewport of blank rows with
    /// the next unused row ids; the dropped rows are recorded as a trim event.
    pub fn clear_viewport(&mut self)
        requires
            old(self).wf(),
        ensures
            final(self).wf(),
            final(self)@ == (TerminalGridView {
                rows: Seq::new(old(self)@.viewport_rows, |_i: int| blank_row(old(self)@.cols)),
                base: sat_add(old(self)@.base, old(self)@.rows.len() as int),
                trim_events: if old(self)@.rows.len() > 0 {
                    old(self)@.trim_events.push(
                        TrimEvent { start: old(self)@.base, count: old(self)@.rows.len() as usize },
                    )
                } else {
                    old(self)@.trim_events
                },
                ..old(self)@
            }),
    {
        let old_base = self.inner.base;
        let trimmed_count = self.inner.rows.len();
        let cols = self.inner.cols;
        let viewport_rows = self.viewport_rows.max(1);
        let start_id = self.inner.next_row_id;
        self.inner.rows.clear();
        let mut i: usize = 0;
        while i < viewport_rows
            invariant
                i <= viewport_rows,
                self.inner.rows@.len() == i,
                self.inner.cols == cols,
                self.inner.next_row_id == sat_add(start_id, i as int),
                self.default_cell == blank_cell(),
                self.default_seq == 0,
                self.same_settings(old(self)),
                self.trim_events@ == old(self).trim_events@,
                old(self).wf(),
                forall|k: int|
                    0 <= k < i ==> (#[trigger] self.inner.rows@[k]).view_entry() == blank_row(cols as nat)
                        && self.inner.rows@[k].absolute == sat_add(start_id, k)
                        && self.inner.rows@[k].cells@.len() == cols && self.inner.rows@[k].seqs@.len() == cols,
            decreases viewport_rows - i,
        {
            let absolute = self.inner.next_row_id;
            let e = RowEntry::new(absolute, cols, self.default_cell, self.default_seq);
            assert(e.view_entry() =~= blank_row(cols as nat));
            self.inner.rows.push_back(e);
            self.inner.next_row_id = self.inner.next_row_id.saturating_add(1);
            i = i + 1;
        }
        if self.inner.rows.len() > 0 {
            self.inner.base = self.inner.rows[0].absolute;
        } else {
            self.inner.base = self.inner.next_row_id;
        }
        if trimmed_count > 0 {
            self.trim_events.push(TrimEvent { start: old_base, count: trimmed_count });
        }
        proof {
            assert(viewport_rows == old(self).viewport_rows);
            assert(start_id == sat_add(old_base, trimmed_count as int));
            assert(self.inner.base == start_id);
            assert(self.inner.view_rows() =~= Seq::new(viewport_rows as nat, |_i: int| blank_row(cols as nat)));
            assert(self.inner.inv());
        }
    }

    /// The id of `style` in the grid's style table, added if new.
    pub fn ensure_style_id(&mut self, style: Style) -> (res: StyleId)
        requires
            old(self).wf(),
        ensures
            final(self).wf(),
            final(self)@ == (TerminalGridView { styles: final(self)@.styles, ..old(self)@ }),
            old(self)@.styles.contains(style) ==> final(self)@.styles == old(self)@.styles
                && final(self)@.styles[res.0 as int] == style,
            !old(self)@.styles.contains(style) && old(self)@.styles.len() <= u32::MAX ==> final(self)@.styles
                == old(self)@.styles.push(style) && res.0 == old(self)@.styles.len(),
            !old(self)@.styles.contains(style) && old(self)@.styles.len() > u32::MAX ==> final(self)@.styles
                == old(self)@.styles && res == StyleId(0),
    {
        self.style_table.ensure_id(style)
    }

    /// Packs a character with a style id.
    pub fn pack_char_with_style(ch: char, style_id: StyleId) -> (res: PackedCell)
        ensures
            res.raw_value() == spec_pack(ch, style_id),
    {
        pack_cell(ch, style_id)
    }

    fn guard_trim_events(&mut self, event: Option<TrimEvent>)
        ensures
            final(self).inner == old(self).inner,
            final(self).style_table == old(self).style_table,
            final(self).default_cell == old(self).default_cell,
            final(self).default_seq == old(self).default_seq,
            final(self).history_limit == old(self).history_limit,
            final(self).viewport_rows == old(self).viewport_rows,
            final(self).viewport_cols == old(self).viewport_cols,
            event is None ==> final(self).trim_events@ == old(self).trim_events@,
            event matches Some(e) ==> final(self).trim_events@ == old(self).trim_events@.push(e),
    {
        if let Some(event) = event {
            self.trim_events.push(event);
        }
    }

    /// Returns the recorded trim events, oldest first, and forgets them.
    pub fn drain_trim_events(&mut self) -> (res: Vec<TrimEvent>)
        requires
            old(self).wf(),
        ensures
            final(self).wf(),
            res@ == old(self)@.trim_events,
            final(self)@ == (TerminalGridView { trim_events: Seq::empty(), ..old(self)@ }),
    {
        let mut drained: Vec<TrimEvent> = Vec::new();
        std::mem::swap(&mut drained, &mut self.trim_events);
        assert(self@ =~= TerminalGridView { trim_events: Seq::empty(), ..old(self)@ });
        drained
    }

    /// The absolute id of the first stored row.
    pub fn row_offset(&self) -> (res: u64)
        ensures
            res == self@.base,
    {
        self.inner.base
    }

    /// Renumbers the stored rows to start at absolute id `base`; moving the
    /// start forward is recorded as a trim event of the skipped ids.
    pub fn set_row_offset(&mut self, base: u64)
        requires
            old(self).wf(),
        ensures
            final(self).wf(),
            final(self)@ == (TerminalGridView {
                base: base,
                trim_events: if base > old(self)@.base {
                    old(self)@.trim_events.push(
                        TrimEvent {
                            start: old(self)@.base,
                            count: if base - old(self)@.base <= usize::MAX {
                                (base - old(self)@.base) as usize
                            } else {
                                usize::MAX
                            },
                        },
                    )
                } else {
                    old(self)@.trim_events
                },
                ..old(self)@
            }),
    {
        let old_base = self.inner.base;
        self.inner.base = base;
        let mut absolute = base;
        let n = self.inner.rows.len();
        let ghost old_rows = self.inner.rows@;
        let mut i: usize = 0;
        while i < n
            invariant
                n == old_rows.len(),
                old_rows == old(self).inner.rows@,
                old(self).inner.inv(),
                i <= n,
                self.inner.rows@.len() == n,
                self.inner.cols == old(self).inner.cols,
                self.inner.base == base,
                absolute == sat_add(base, i as int),
                self.same_settings(old(self)),
                self.trim_events@ == old(self).trim_events@,
                old(self).wf(),
                forall|k: int| 0 <= k < n - i ==> #[trigger] self.inner.rows@[k] == old_rows[k + i],
                forall|k: int|
                    0 <= k < i ==> {
                        let e = #[trigger] self.inner.rows@[n - i + k];
                        &&& e.view_entry() == old_rows[k].view_entry()
                        &&& e.cells@.len() == old_rows[k].cells@.len()
                        &&& e.seqs@.len() == old_rows[k].seqs@.len()
                        &&& e.absolute == sat_add(base, k)
                    },
            decreases n - i,
        {
            let ghost before = self.inner.rows@;
            let popped = self.inner.rows.pop_front();
            let mut e = match popped {
                Some(e) => e,
                None => {
                    proof {
                        assert(false);
                    }
                    RowEntry { absolute: 0, cells: Vec::new(), seqs: Vec::new(), max_seq: 0 }
                },
            };
            e.absolute = absolute;
            self.inner.rows.push_back(e);
            absolute = absolute.saturating_add(1);
            proof {
                assert forall|k: int| 0 <= k < n - (i + 1) implies #[trigger] self.inner.rows@[k] == old_rows[k + i
                    + 1] by {
                    assert(self.inner.rows@[k] == before[k + 1]);
                }
                assert forall|k: int| 0 <= k < i + 1 implies {
                    let e = #[trigger] self.inner.rows@[n - (i + 1) + k];
                    &&& e.view_entry() == old_rows[k].view_entry()
                    &&& e.cells@.len() == old_rows[k].cells@.len()
                    &&& e.seqs@.len() == old_rows[k].seqs@.len()
                    &&& e.absolute == sat_add(base, k)
                } by {
                    if k < i {
                        assert(self.inner.rows@[n - (i + 1) + k] == before[n - i + k]);
                    }
                }
            }
            i = i + 1;
        }
        self.inner.next_row_id = absolute;
        if base > old_base {
            let diff = base - old_base;
            if diff <= usize::MAX as u64 {
                self.guard_trim_events(Some(TrimEvent { start: old_base, count: diff as usize }));
            } else {
                self.guard_trim_events(Some(TrimEvent { start: old_base, count: usize::MAX }));
            }
        }
        proof {
            assert forall|k: int| 0 <= k < self.inner.rows@.len() implies (#[trigger] self.inner.rows@[k]).cells@.len()
                == self.inner.cols && self.inner.rows@[k].seqs@.len() == self.inner.cols
                && self.inner.rows@[k].absolute == sat_add(self.inner.base, k) by {
                assert(self.inner.rows@[n - n + k].absolute == sat_add(base, k));
                assert(old_rows[k] == old(self).inner.rows@[k]);
            }
            assert(self.inner.view_rows() =~= old(self).inner.view_rows()) by {
                assert forall|k: int| 0 <= k < n implies #[trigger] self.inner.view_rows()[k]
                    == old(self).inner.view_rows()[k] by {
                    assert(self.inner.rows@[n - n + k].view_entry() == old_rows[k].view_entry());
                }
            }
        }
    }

    /// The absolute id of the first stored row, if any row is stored.
    pub fn first_row_id(&self) -> (res: Option<u64>)
        requires
            self.wf(),
        ensures
            self@.rows.len() == 0 ==> res is None,
            self@.rows.len() > 0 ==> res == Some(self@.base),
    {
        if self.inner.rows.len() > 0 {
            Some(self.inner.rows[0].absolute)
        } else {
            None
        }
    }

    /// The absolute id of the last stored row, if any row is stored.
    pub fn last_row_id(&self) -> (res: Option<u64>)
        requires
            self.wf(),
        ensures
            self@.rows.len() == 0 ==> res is None,
            self@.rows.len() > 0 ==> res == Some(sat_add(self@.base, self@.rows.len() - 1)),
    {
        let n = self.inner.rows.len();
        if n > 0 {
            Some(self.inner.rows[n - 1].absolute)
        } else {
            None
        }
    }

    /// The absolute id of the row stored at `index`.
    pub fn row_id_at(&self, index: usize) -> (res: Option<u64>)
        requires
            self.wf(),
        ensures
            index >= self@.rows.len() ==> res is None,
            index < self@.rows.len() ==> res == Some(sat_add(self@.base, index as int)),
    {
        if index < self.inner.rows.len() {
            Some(self.inner.rows[index].absolute)
        } else {
            None
        }
    }

    /// The index at which the row with absolute id `absolute` is stored.
    pub fn index_of_row(&self, absolute: u64) -> (res: Option<usize>)
        ensures
            absolute < self@.base ==> res is None,
            absolute >= self@.base ==> {
                let offset = ((absolute - self@.base) as u64) as usize;
                &&& offset < self@.rows.len() ==> res == Some(offset)
                &&& offset >= self@.rows.len() ==> res is None
            },
    {
        if absolute < self.inner.base {
            return None;
        }
        let offset = (absolute - self.inner.base) as usize;
        if offset < self.inner.rows.len() {
            Some(offset)
        } else {
            None
        }
    }

    /// The absolute id that the next appended row will get.
    pub fn next_row_id(&self) -> (res: u64)
        requires
            self.wf(),
        ensures
            res == sat_add(self@.base, self@.rows.len() as int),
    {
        self.inner.next_row_id
    }

    /// The number of rows the grid keeps after a write.
    pub fn history_limit(&self) -> (res: usize)
        ensures
            res == self@.history_limit,
    {
        self.history_limit
    }

    /// The number of stored rows.
    pub fn rows(&self) -> (res: usize)
        ensures
            res == self@.rows.len(),
    {
        self.inner.len()
    }

    /// The number of columns of every stored row.
    pub fn cols(&self) -> (res: usize)
        ensures
            res == self@.cols,
    {
        self.inner.cols()
    }

    /// Rows of this grid are never frozen; the call does nothing.
    pub fn freeze_row(&mut self, _row: usize) -> (res: Result<(), WriteError>)
        ensures
            res is Ok,
            final(self)@ == old(self)@,
            final(self).wf() == old(self).wf(),
    {
        Ok(())
    }

    /// Rows of this grid are never frozen; the call does nothing.
    pub fn thaw_row(&mut self, _row: usize, _seq: SeqNum) -> (res: Result<(), WriteError>)
        ensures
            res is Ok,
            final(self)@ == old(self)@,
            final(self).wf() == old(self).wf(),
    {
        Ok(())
    }
}

/// Extending to a row and then to a later one is the same as extending to
/// the later one.
proof fn lemma_extend_twice(rows: Seq<RowView>, base: u64, cols: nat, a1: int, a2: int)
    requires
        base <= a1 <= a2,
    ensures
        extend_rows(extend_rows(rows, base, cols, a1), base, cols, a2) == extend_rows(rows, base, cols, a2),
{
    let e1 = extend_rows(rows, base, cols, a1);
    let e2 = extend_rows(e1, base, cols, a2);
    assert(e2 =~= extend_rows(rows, base, cols, a2));
}

impl TerminalGrid {
    fn enforce_history_limit(&mut self)
        requires
            old(self).wf(),
        ensures
            final(self).wf(),
            final(self)@ == trimmed_view(old(self)@),
    {
        let len = self.inner.len();
        if len <= self.history_limit {
            return;
        }
        let overflow = len - self.history_limit;
        let event = self.inner.trim_front(overflow);
        self.guard_trim_events(event);
        assert(self@ =~= trimmed_view(old(self)@));
    }

    fn ensure_row_and_col(&mut self, row: usize, col: usize) -> (res: Result<usize, WriteError>)
        requires
            old(self).wf(),
            (row as u64) < u64::MAX,
            col < usize::MAX,
        ensures
            final(self).wf(),
            final(self).same_settings(old(self)),
            final(self).trim_events@ == old(self).trim_events@,
            final(self).inner.base == old(self).inner.base,
            final(self).inner.cols == (if col + 1 > old(self).inner.cols {
                (col + 1) as usize
            } else {
                old(self).inner.cols
            }),
            ({
                let widened = widen_rows(old(self).inner.view_rows(), old(self).inner.cols as nat, (col + 1) as nat);
                &&& (row as u64) < old(self).inner.base ==> res == Err::<usize, WriteError>(
                    WriteError::CoordOutOfBounds,
                ) && final(self).inner.view_rows() == widened
                &&& (row as u64) >= old(self).inner.base ==> res == Ok::<usize, WriteError>(
                    (row - old(self).inner.base) as usize,
                ) && final(self).inner.view_rows() == extend_rows(
                    widened,
                    old(self).inner.base,
                    final(self).inner.cols as nat,
                    row as int,
                ) && row - old(self).inner.base < final(self).inner.rows@.len()
            }),
    {
        self.inner.ensure_cols(col + 1, self.default_cell, self.default_seq);
        let absolute = row as u64;
        self.inner.ensure_row(absolute, self.default_cell, self.default_seq)
    }

    /// Writes `cell` at absolute row `row`, column `col` if `seq` is newer
    /// than the cell's stored sequence. The grid first widens to `col + 1`
    /// columns and appends blank rows up to `row`; rows below the first stored
    /// row are refused. Afterwards rows beyond the history limit are trimmed
    /// from the front.
    pub fn write_packed_cell_if_newer(&mut self, row: usize, col: usize, seq: SeqNum, cell: PackedCell) -> (res:
        Result<WriteOutcome, WriteError>)
        requires
            old(self).wf(),
            (row as u64) < u64::MAX,
            col < usize::MAX,
        ensures
            final(self).wf(),
            final(self)@ == spec_write_cell(old(self)@, row as int, col as int, seq, cell).0,
            res == spec_write_cell(old(self)@, row as int, col as int, seq, cell).1,
    {
        let index = match self.ensure_row_and_col(row, col) {
            Ok(index) => index,
            Err(err) => {
                assert(self@ =~= spec_write_cell(old(self)@, row as int, col as int, seq, cell).0);
                return Err(err);
            },
        };
        let ghost mid = self.inner.rows@;
        let ghost mid_view = self.inner.view_rows();
        let removed = self.inner.rows.remove(index);
        let mut entry = match removed {
            Some(entry) => entry,
            None => {
                proof {
                    assert(false);
                }
                RowEntry { absolute: 0, cells: Vec::new(), seqs: Vec::new(), max_seq: 0 }
            },
        };
        let written = entry.write_cell_if_newer(col, seq, cell);
        self.inner.rows.insert(index, entry);
        proof {
            assert(self.inner.rows@ =~= mid.update(index as int, entry));
            assert(self.inner.view_rows() =~= mid_view.update(
                index as int,
                write_row(mid_view[index as int], col as int, seq, cell),
            ));
        }
        let outcome = match written {
            Ok(outcome) => outcome,
            Err(err) => {
                proof {
                    assert(false);
                }
                return Err(err);
            },
        };
        proof {
            let g = old(self)@;
            let new_cols = if col + 1 > g.cols {
                (col + 1) as nat
            } else {
                g.cols
            };
            let ext = extend_rows(widen_rows(g.rows, g.cols, (col + 1) as nat), g.base, new_cols, row as int);
            let g2 = TerminalGridView {
                rows: ext.update(index as int, write_row(ext[index as int], col as int, seq, cell)),
                cols: new_cols,
                ..g
            };
            assert(mid_view == ext);
            assert(self@ =~= g2);
        }
        self.enforce_history_limit();
        Ok(outcome)
    }
}

impl TerminalGrid {
    /// Fills absolute rows [row0, row1) x columns [col0, col1) with `cell`
    /// where `seq` is newer than the stored sequence and returns
    /// (written, skipped). The grid first widens to `col1` columns and
    /// appends blank rows up to `row1 - 1`; a range starting below the first
    /// stored row is refused. Afterwards rows beyond the history limit are
    /// trimmed from the front.
    pub fn fill_rect_with_cell_if_newer(
        &mut self,
        row0: usize,
        col0: usize,
        row1: usize,
        col1: usize,
        seq: SeqNum,
        cell: PackedCell,
    ) -> (res: Result<(usize, usize), WriteError>)
        requires
            old(self).wf(),
            row0 <= row1 && col0 <= col1 ==> (row1 - row0) * (col1 - col0) <= usize::MAX,
        ensures
            final(self).wf(),
            final(self)@ == spec_fill_rect(old(self)@, row0 as int, col0 as int, row1 as int, col1 as int, seq, cell).0,
            res == spec_fill_rect(old(self)@, row0 as int, col0 as int, row1 as int, col1 as int, seq, cell).1,
    {
        if row0 > row1 || col0 > col1 {
            return Ok((0, 0));
        }
        self.inner.ensure_cols(col1, self.default_cell, self.default_seq);
        let ghost widened = self.inner.view_rows();
        let mut written: usize = 0;
        let mut skipped: usize = 0;
        if row0 < row1 {
            let first = match self.inner.ensure_row(row0 as u64, self.default_cell, self.default_seq) {
                Ok(index) => index,
                Err(err) => {
                    assert(self@ =~= spec_fill_rect(
                        old(self)@,
                        row0 as int,
                        col0 as int,
                        row1 as int,
                        col1 as int,
                        seq,
                        cell,
                    ).0);
                    return Err(err);
                },
            };
            let ghost ext0 = self.inner.view_rows();
            let _last = self.inner.ensure_row((row1 - 1) as u64, self.default_cell, self.default_seq);
            proof {
                lemma_extend_twice(widened, self.inner.base, self.inner.cols as nat, row0 as int, row1 - 1);
            }
            let ghost ext = self.inner.view_rows();
            let n = row1 - row0;
            let mut k: usize = 0;
            while k < n
                invariant
                    self.wf(),
                    self.same_settings(old(self)),
                    self.trim_events@ == old(self).trim_events@,
                    self.inner.base == old(self).inner.base,
                    self.inner.cols as nat == (if col1 > old(self).inner.cols {
                        col1 as nat
                    } else {
                        old(self).inner.cols as nat
                    }),
                    col0 <= col1 <= self.inner.cols,
                    n == row1 - row0,
                    first == row0 - self.inner.base,
                    first + n <= ext.len(),
                    ext.len() == self.inner.rows@.len(),
                    k <= n,
                    n * (col1 - col0) <= usize::MAX,
                    self.inner.view_rows() == Seq::new(
                        ext.len(),
                        |i: int|
                            if first <= i < first + k {
                                fill_row(ext[i], col0 as int, col1 as int, seq, cell)
                            } else {
                                ext[i]
                            },
                    ),
                    written == rows_older(ext, first as int, first + k, col0 as int, col1 as int, seq),
                    written + skipped == k * (col1 - col0),
                decreases n - k,
            {
                let idx = first + k;
                let ghost before = self.inner.rows@;
                let ghost before_view = self.inner.view_rows();
                let removed = self.inner.rows.remove(idx);
                let mut entry = match removed {
                    Some(entry) => entry,
                    None => {
                        proof {
                            assert(false);
                        }
                        RowEntry { absolute: 0, cells: Vec::new(), seqs: Vec::new(), max_seq: 0 }
                    },
                };
                assert(before_view[idx as int] == before[idx as int].view_entry());
                assert(before_view[idx as int] == ext[idx as int]);
                assert(entry.view_entry() == ext[idx as int]);
                let filled = entry.fill_rect_if_newer(col0, col1, seq, cell);
                self.inner.rows.insert(idx, entry);
                proof {
                    assert(self.inner.rows@ =~= before.update(idx as int, entry));
                    assert(self.inner.view_rows() =~= before_view.update(
                        idx as int,
                        fill_row(ext[idx as int], col0 as int, col1 as int, seq, cell),
                    ));
                    assert(self.inner.view_rows() =~= Seq::new(
                        ext.len(),
                        |i: int|
                            if first <= i < first + k + 1 {
                                fill_row(ext[i], col0 as int, col1 as int, seq, cell)
                            } else {
                                ext[i]
                            },
                    ));
                    lemma_count_older_le(ext[idx as int].seqs, col0 as int, col1 as int, seq);
                    assert((k + 1) * (col1 - col0) <= n * (col1 - col0)) by (nonlinear_arith)
                        requires
                            k + 1 <= n,
                            col0 <= col1,
                    ;
                    assert((k + 1) * (col1 - col0) == k * (col1 - col0) + (col1 - col0)) by (nonlinear_arith);
                }
                let (w, s) = match filled {
                    Ok(counts) => counts,
                    Err(err) => {
                        proof {
                            assert(false);
                        }
                        return Err(err);
                    },
                };
                written = written + w;
                skipped = skipped + s;
                k = k + 1;
            }
            proof {
                let g = old(self)@;
                let new_cols = self.inner.cols as nat;
                let lo = row0 - g.base;
                let hi = row1 - g.base;
                assert(widened == widen_rows(g.rows, g.cols, col1 as nat));
                assert(ext == extend_rows(widened, g.base, new_cols, row1 - 1));
                assert(first as int == lo);
                assert(first + n == hi);
                assert(written == rows_older(ext, lo, hi, col0 as int, col1 as int, seq));
                assert(written + skipped == (row1 - row0) * (col1 - col0));
                let filled = Seq::new(
                    ext.len(),
                    |i: int|
                        if lo <= i < hi {
                            fill_row(ext[i], col0 as int, col1 as int, seq, cell)
                        } else {
                            ext[i]
                        },
                );
                assert(self@ =~= TerminalGridView { rows: filled, cols: new_cols, ..g });
            }
        } else {
            proof {
                let g = old(self)@;
                let new_cols = self.inner.cols as nat;
                let lo = row0 - g.base;
                let hi = row1 - g.base;
                let filled = Seq::new(
                    widened.len(),
                    |i: int|
                        if lo <= i < hi {
                            fill_row(widened[i], col0 as int, col1 as int, seq, cell)
                        } else {
                            widened[i]
                        },
                );
                assert(filled =~= widened);
                assert((row1 - row0) * (col1 - col0) == 0) by (nonlinear_arith)
                    requires
                        row1 == row0,
                ;
                assert(rows_older(widened, lo, hi, col0 as int, col1 as int, seq) == 0);
                assert(self@ =~= TerminalGridView { rows: filled, cols: new_cols, ..g });
            }
        }
        self.enforce_history_limit();
        Ok((written, skipped))
    }

    /// The cell at column `col` of the row stored at index `row`.
    pub fn get_cell_relaxed(&self, row: usize, col: usize) -> (res: Option<TerminalCellSnapshot>)
        requires
            self.wf(),
        ensures
            (row >= self@.rows.len() || col >= self@.cols) ==> res is None,
            (row < self@.rows.len() && col < self@.cols) ==> res == Some(
                TerminalCellSnapshot {
                    cell: self@.rows[row as int].cells[col as int],
                    seq: self@.rows[row as int].seqs[col as int],
                },
            ),
    {
        if row >= self.inner.rows.len() {
            return None;
        }
        let entry = &self.inner.rows[row];
        match entry.cell_snapshot(col) {
            Some(snapshot) => {
                proof {
                    PackedCell::lemma_from_raw_value(entry.cells@[col as int].raw_value());
                    PackedCell::lemma_raw_value_injective(
                        PackedCell::spec_from_raw(entry.cells@[col as int].raw_value()),
                        entry.cells@[col as int],
                    );
                }
                Some(TerminalCellSnapshot::from(snapshot))
            },
            None => None,
        }
    }

    /// Copies the raw cells of the row stored at index `row` into the front
    /// of `out`, which must be at least as long as the row.
    pub fn snapshot_row_into(&self, row: usize, out: &mut [u64]) -> (res: Result<(), WriteError>)
        requires
            self.wf(),
        ensures
            (row >= self@.rows.len() || old(out)@.len() < self@.cols) ==> res == Err::<(), WriteError>(
                WriteError::CoordOutOfBounds,
            ) && final(out)@ == old(out)@,
            (row < self@.rows.len() && old(out)@.len() >= self@.cols) ==> res is Ok && final(out)@ == Seq::new(
                old(out)@.len(),
                |i: int|
                    if i < self@.cols {
                        self@.rows[row as int].cells[i].raw_value()
                    } else {
                        old(out)@[i]
                    },
            ),
    {
        if row < self.inner.rows.len() {
            self.inner.rows[row].snapshot_row(out)
        } else {
            Err(WriteError::CoordOutOfBounds)
        }
    }
}

proof fn lemma_count_older_le(seqs: Seq<SeqNum>, col0: int, col1: int, seq: SeqNum)
    requires
        col0 <= col1,
    ensures
        count_older(seqs, col0, col1, seq) <= col1 - col0,
    decreases col1 - col0,
{
    if col1 > col0 {
        lemma_count_older_le(seqs, col0, col1 - 1, seq);
    }
}

} // verus!

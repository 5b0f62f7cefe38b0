//! The [`GridCache`] interface of the terminal grid.

use vstd::prelude::*;

use super::cache::{TerminalGrid, spec_fill_rect, spec_write_cell};
use super::packed::PackedCell;
use crate::cache::{CellSnapshot, GridCache, SeqNum, WriteError, WriteOutcome};

verus! {

impl GridCache for TerminalGrid {
    open spec fn well_formed(&self) -> bool {
        self.wf()
    }

    open spec fn accepts_write(&self, row: usize, col: usize) -> bool {
        (row as u64) < u64::MAX && col < usize::MAX
    }

    open spec fn accepts_fill(&self, row0: usize, col0: usize, row1: usize, col1: usize) -> bool {
        row0 <= row1 && col0 <= col1 ==> (row1 - row0) * (col1 - col0) <= usize::MAX
    }

    open spec fn shape(&self) -> (nat, nat) {
        (self@.rows.len(), self@.cols)
    }

    /// The raw cell and sequence at index `row`, or `None` outside the grid.
    open spec fn cell_at(&self, row: usize, col: usize) -> Option<CellSnapshot> {
        if row < self@.rows.len() && col < self@.cols {
            Some(
                CellSnapshot {
                    payload: self@.rows[row as int].cells[col as int].raw_value(),
                    seq: self@.rows[row as int].seqs[col as int],
                },
            )
        } else {
            None
        }
    }

    fn dims(&self) -> (res: (usize, usize)) {
        (self.rows(), self.cols())
    }

    fn write_cell_if_newer(&mut self, row: usize, col: usize, seq: SeqNum, payload: u64) -> (res: Result<
        WriteOutcome,
        WriteError,
    >)
        ensures
            final(self)@ == spec_write_cell(
                old(self)@,
                row as int,
                col as int,
                seq,
                PackedCell::spec_from_raw(payload),
            ).0,
            res == spec_write_cell(old(self)@, row as int, col as int, seq, PackedCell::spec_from_raw(payload)).1,
    {
        self.write_packed_cell_if_newer(row, col, seq, PackedCell::from_raw(payload))
    }

    fn fill_rect_if_newer(
        &mut self,
        row0: usize,
        col0: usize,
        row1: usize,
        col1: usize,
        seq: SeqNum,
        payload: u64,
    ) -> (res: Result<(usize, usize), WriteError>)
        ensures
            final(self)@ == spec_fill_rect(
                old(self)@,
                row0 as int,
                col0 as int,
                row1 as int,
                col1 as int,
                seq,
                PackedCell::spec_from_raw(payload),
            ).0,
            res == spec_fill_rect(
                old(self)@,
                row0 as int,
                col0 as int,
                row1 as int,
                col1 as int,
                seq,
                PackedCell::spec_from_raw(payload),
            ).1,
    {
        self.fill_rect_with_cell_if_newer(row0, col0, row1, col1, seq, PackedCell::from_raw(payload))
    }

    fn snapshot_row_into(&self, row: usize, out: &mut [u64]) -> (res: Result<(), WriteError>)
        ensures
            (row >= self@.rows.len() || old(out)@.len() < self@.cols) ==> res == Err::<(), WriteError>(
                WriteError::CoordOutOfBounds,
            ) && final(out)@ == old(out)@,
            (row < self@.rows.len() && old(out)@.len() >= self@.cols) ==> res is Ok && final(out)@ == Seq::new(
                old(out)@.len(),
                |i: int|
                    if i < self@.cols {
                        self@.rows[row as int].cells[i].raw_value()
                    } else {
                        old(out)@[i]
                    },
            ),
    {
        TerminalGrid::snapshot_row_into(self, row, out)
    }

    fn get_cell_relaxed(&self, row: usize, col: usize) -> (res: Option<CellSnapshot>)
    {
        match TerminalGrid::get_cell_relaxed(self, row, col) {
            Some(snapshot) => Some(CellSnapshot::new(snapshot.cell.raw(), snapshot.seq)),
            None => None,
        }
    }
}

} // verus!

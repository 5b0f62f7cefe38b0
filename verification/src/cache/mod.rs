//! Grid caches of opaque packed `u64` payloads, each cell tagged with a
//! sequence number: a write lands only when its sequence number is newer
//! than the one stored for the cell.

use vstd::prelude::*;

pub mod grid;
pub mod laws;
pub mod terminal;

verus! {

/// What a conditional write did.
#[derive(Debug, Clone, Copy, PartialEq, Eq, Structural)]
pub enum WriteOutcome {
    Written,
    SkippedOlder,
    SkippedEqual,
}

/// Why a write or a snapshot was refused.
#[derive(Debug, Clone, Copy, PartialEq, Eq, Structural)]
pub enum WriteError {
    CoordOutOfBounds,
}

/// Monotonic sequence number used for conflict resolution (for example the
/// index of a terminal byte).
pub type SeqNum = u64;

/// The outcome of writing `new_seq` over a cell whose stored sequence is `cur_seq`.
pub open spec fn outcome_for(cur_seq: SeqNum, new_seq: SeqNum) -> WriteOutcome {
    if new_seq < cur_seq {
        WriteOutcome::SkippedOlder
    } else if new_seq == cur_seq {
        WriteOutcome::SkippedEqual
    } else {
        WriteOutcome::Written
    }
}

/// A cell's payload and sequence number, read together.
#[derive(Debug, Clone, Copy, PartialEq, Eq, Structural)]
pub struct CellSnapshot {
    pub payload: u64,
    pub seq: SeqNum,
}

impl CellSnapshot {
    pub fn new(payload: u64, seq: SeqNum) -> (res: Self)
        ensures
            res.payload == payload,
            res.seq == seq,
    {
        CellSnapshot { payload, seq }
    }
}

/// A 2D grid cache of packed payloads. Each implementation states the exact
/// behaviour of its methods; the trait itself only carries the
/// implementation's well-formedness through every call.
pub trait GridCache {
    /// The implementation's internal invariant.
    spec fn well_formed(&self) -> bool;

    /// The single-cell writes that the implementation completes.
    spec fn accepts_write(&self, row: usize, col: usize) -> bool;

    /// The rectangle fills that the implementation completes.
    spec fn accepts_fill(&self, row0: usize, col0: usize, row1: usize, col1: usize) -> bool;

    /// The number of rows and of columns.
    spec fn shape(&self) -> (nat, nat);

    /// What a read of the cell at (`row`, `col`) returns.
    spec fn cell_at(&self, row: usize, col: usize) -> Option<CellSnapshot>;

    /// Returns (rows, cols).
    fn dims(&self) -> (res: (usize, usize))
        requires
            self.well_formed(),
        ensures
            res.0 == self.shape().0,
            res.1 == self.shape().1,
    ;

    /// Writes a single cell if `seq` is newer than the stored sequence.
    fn write_cell_if_newer(&mut self, row: usize, col: usize, seq: SeqNum, payload: u64) -> (res: Result<
        WriteOutcome,
        WriteError,
    >)
        requires
            old(self).well_formed(),
            old(self).accepts_write(row, col),
        ensures
            final(self).well_formed(),
    ;

    /// Fills the rectangle [row0,row1) x [col0,col1) with `payload` where
    /// `seq` is newer; returns (written_count, skipped_count).
    fn fill_rect_if_newer(
        &mut self,
        row0: usize,
        col0: usize,
        row1: usize,
        col1: usize,
        seq: SeqNum,
        payload: u64,
    ) -> (res: Result<(usize, usize), WriteError>)
        requires
            old(self).well_formed(),
            old(self).accepts_fill(row0, col0, row1, col1),
        ensures
            final(self).well_formed(),
    ;

    /// Copies a row's packed payloads into `out`.
    fn snapshot_row_into(&self, row: usize, out: &mut [u64]) -> Result<(), WriteError>
        requires
            self.well_formed(),
    ;

    /// Reads a single cell's payload and sequence number.
    fn get_cell_relaxed(&self, row: usize, col: usize) -> (res: Option<CellSnapshot>)
        requires
            self.well_formed(),
        ensures
            res == self.cell_at(row, col),
    ;
}

} // verus!

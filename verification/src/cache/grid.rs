//! A grid of packed payloads whose rows can be frozen (archived as plain
//! values) and thawed back to writable rows.

use vstd::prelude::*;

use super::{CellSnapshot, GridCache, SeqNum, WriteError, WriteOutcome, outcome_for};

verus! {

/// The abstract content of one grid row.
#[verifier::ext_equal]
pub struct GridRowView {
    pub frozen: bool,
    pub payloads: Seq<u64>,
    pub seqs: Seq<SeqNum>,
}

/// The abstract content of a whole grid.
#[verifier::ext_equal]
pub struct AtomicGridView {
    pub rows: Seq<GridRowView>,
    pub cols: nat,
}

/// A row that accepts writes.
struct ActiveRow {
    payloads: Vec<u64>,
    seqs: Vec<SeqNum>,
}

impl ActiveRow {
    fn new(cols: usize, default_payload: u64, default_seq: SeqNum) -> (res: Self)
        ensures
            res.payloads@ == Seq::new(cols as nat, |_i: int| default_payload),
            res.seqs@ == Seq::new(cols as nat, |_i: int| default_seq),
    {
        let mut payloads: Vec<u64> = Vec::with_capacity(cols);
        let mut seqs: Vec<SeqNum> = Vec::with_capacity(cols);
        let mut i: usize = 0;
        while i < cols
            invariant
                i <= cols,
                payloads@ == Seq::new(i as nat, |_i: int| default_payload),
                seqs@ == Seq::new(i as nat, |_i: int| default_seq),
            decreases cols - i,
        {
            payloads.push(default_payload);
            seqs.push(default_seq);
            i = i + 1;
        }
        ActiveRow { payloads, seqs }
    }

    fn cols(&self) -> (res: usize)
        ensures
            res == self.payloads@.len(),
    {
        self.payloads.len()
    }
}

/// A row is either writable or frozen into immutable values.
enum RowState {
    Active(ActiveRow),
    Frozen { payloads: Vec<u64>, seqs: Vec<SeqNum> },
}

impl RowState {
    spec fn view_row(&self) -> GridRowView {
        match self {
            RowState::Active(r) => GridRowView { frozen: false, payloads: r.payloads@, seqs: r.seqs@ },
            RowState::Frozen { payloads, seqs } => GridRowView {
                frozen: true,
                payloads: payloads@,
                seqs: seqs@,
            },
        }
    }
}

/// Row `r` with the columns in [col0, col1) whose sequence is older than
/// `seq` overwritten by `payload` / `seq`.
pub open spec fn fill_row_view(r: GridRowView, col0: int, col1: int, seq: SeqNum, payload: u64) -> GridRowView {
    GridRowView {
        frozen: r.frozen,
        payloads: Seq::new(
            r.payloads.len(),
            |c: int|
                if col0 <= c < col1 && r.seqs[c] < seq {
                    payload
                } else {
                    r.payloads[c]
                },
        ),
        seqs: Seq::new(
            r.seqs.len(),
            |c: int|
                if col0 <= c < col1 && r.seqs[c] < seq {
                    seq
                } else {
                    r.seqs[c]
                },
        ),
    }
}

/// Number of columns in [col0, col1) whose stored sequence is older than `seq`.
pub open spec fn count_older(seqs: Seq<SeqNum>, col0: int, col1: int, seq: SeqNum) -> nat
    decreases col1 - col0,
{
    if col1 <= col0 {
        0
    } else {
        count_older(seqs, col0, col1 - 1, seq) + (if seqs[col1 - 1] < seq {
            1nat
        } else {
            0nat
        })
    }
}

/// Number of cells in [row0, row1) x [col0, col1) whose sequence is older than `seq`.
pub open spec fn rect_older(rows: Seq<GridRowView>, row0: int, row1: int, col0: int, col1: int, seq: SeqNum) -> nat
    decreases row1 - row0,
{
    if row1 <= row0 {
        0
    } else {
        rect_older(rows, row0, row1 - 1, col0, col1, seq) + count_older(rows[row1 - 1].seqs, col0, col1, seq)
    }
}

/// The first frozen row in [lo, hi), or `hi` when there is none.
pub open spec fn first_frozen(rows: Seq<GridRowView>, lo: int, hi: int) -> int
    decreases hi - lo,
{
    if hi <= lo {
        hi
    } else if rows[lo].frozen {
        lo
    } else {
        first_frozen(rows, lo + 1, hi)
    }
}

/// `rows` with every row in [row0, stop) filled as `fill_row_view` says.
pub open spec fn fill_rows_view(
    rows: Seq<GridRowView>,
    row0: int,
    stop: int,
    col0: int,
    col1: int,
    seq: SeqNum,
    payload: u64,
) -> Seq<GridRowView> {
    Seq::new(
        rows.len(),
        |r: int|
            if row0 <= r < stop {
                fill_row_view(rows[r], col0, col1, seq, payload)
            } else {
                rows[r]
            },
    )
}

proof fn lemma_count_older_bound(seqs: Seq<SeqNum>, col0: int, col1: int, seq: SeqNum)
    requires
        col0 <= col1,
    ensures
        count_older(seqs, col0, col1, seq) <= col1 - col0,
    decreases col1 - col0,
{
    if col1 > col0 {
        lemma_count_older_bound(seqs, col0, col1 - 1, seq);
    }
}

proof fn lemma_rect_older_bound(rows: Seq<GridRowView>, row0: int, row1: int, col0: int, col1: int, seq: SeqNum)
    requires
        row0 <= row1,
        col0 <= col1,
    ensures
        rect_older(rows, row0, row1, col0, col1, seq) <= (row1 - row0) * (col1 - col0),
    decreases row1 - row0,
{
    if row1 > row0 {
        lemma_rect_older_bound(rows, row0, row1 - 1, col0, col1, seq);
        lemma_count_older_bound(rows[row1 - 1].seqs, col0, col1, seq);
        assert((row1 - row0) * (col1 - col0) == (row1 - 1 - row0) * (col1 - col0) + (col1 - col0))
            by (nonlinear_arith);
    }
}

proof fn lemma_first_frozen_bounds(rows: Seq<GridRowView>, lo: int, hi: int)
    requires
        lo <= hi,
    ensures
        lo <= first_frozen(rows, lo, hi) <= hi,
        forall|r: int| lo <= r < first_frozen(rows, lo, hi) ==> !(#[trigger] rows[r]).frozen,
        first_frozen(rows, lo, hi) < hi ==> rows[first_frozen(rows, lo, hi)].frozen,
    decreases hi - lo,
{
    if lo < hi && !rows[lo].frozen {
        lemma_first_frozen_bounds(rows, lo + 1, hi);
    }
}

/// The grid with row `row` frozen, its content kept.
pub open spec fn spec_freeze(g: AtomicGridView, row: int) -> AtomicGridView {
    AtomicGridView { rows: g.rows.update(row, GridRowView { frozen: true, ..g.rows[row] }), cols: g.cols }
}

/// The grid with row `row` active again, its content kept.
pub open spec fn spec_thaw(g: AtomicGridView, row: int) -> AtomicGridView {
    AtomicGridView { rows: g.rows.update(row, GridRowView { frozen: false, ..g.rows[row] }), cols: g.cols }
}

/// The state and result of writing `payload` with sequence `seq` at
/// (`row`, `col`): refused outside the grid or on a frozen row, skipped unless
/// `seq` is newer than the stored sequence.
pub open spec fn spec_atomic_write(g: AtomicGridView, row: int, col: int, seq: SeqNum, payload: u64) -> (
    AtomicGridView,
    Result<WriteOutcome, WriteError>,
) {
    if row < 0 || row >= g.rows.len() || g.rows[row].frozen || col < 0 || col >= g.cols {
        (g, Err(WriteError::CoordOutOfBounds))
    } else {
        let cur = g.rows[row];
        if seq > cur.seqs[col] {
            (
                AtomicGridView {
                    rows: g.rows.update(
                        row,
                        GridRowView {
                            frozen: false,
                            payloads: cur.payloads.update(col, payload),
                            seqs: cur.seqs.update(col, seq),
                        },
                    ),
                    cols: g.cols,
                },
                Ok(WriteOutcome::Written),
            )
        } else {
            (g, Ok(outcome_for(cur.seqs[col], seq)))
        }
    }
}

/// Grid of packed payloads tuned for many writes and occasional snapshots.
/// Rows can be frozen and thawed to cheaply archive scrollback while keeping
/// recent rows writable.
pub struct AtomicGrid {
    rows: Vec<RowState>,
    cols: usize,
}

impl View for AtomicGrid {
    type V = AtomicGridView;

    closed spec fn view(&self) -> AtomicGridView {
        AtomicGridView { rows: Seq::new(self.rows@.len(), |i: int| self.rows@[i].view_row()), cols: self.cols as nat }
    }
}

impl AtomicGrid {
    /// Every row holds exactly `cols` payloads and sequence numbers, and the
    /// grid's cell count fits in a `usize`.
    pub closed spec fn wf(&self) -> bool {
        &&& forall|i: int|
            0 <= i < self.rows@.len() ==> (#[trigger] self.rows@[i]).view_row().payloads.len() == self.cols
                && self.rows@[i].view_row().seqs.len() == self.cols
        &&& self.rows@.len() * self.cols <= usize::MAX
    }

    /// Creates a `rows` x `cols` grid of active rows filled with the defaults.
    pub fn new(rows: usize, cols: usize, default_payload: u64, default_seq: SeqNum) -> (res: Self)
        requires
            rows * cols <= usize::MAX,
        ensures
            res.wf(),
            res@.cols == cols,
            res@.rows.len() == rows,
            forall|r: int|
                0 <= r < rows ==> (#[trigger] res@.rows[r]) == (GridRowView {
                    frozen: false,
                    payloads: Seq::new(cols as nat, |_i: int| default_payload),
                    seqs: Seq::new(cols as nat, |_i: int| default_seq),
                }),
    {
        let mut v: Vec<RowState> = Vec::with_capacity(rows);
        let mut i: usize = 0;
        while i < rows
            invariant
                i <= rows,
                v@.len() == i,
                forall|r: int|
                    0 <= r < i ==> (#[trigger] v@[r]).view_row() == (GridRowView {
                        frozen: false,
                        payloads: Seq::new(cols as nat, |_i: int| default_payload),
                        seqs: Seq::new(cols as nat, |_i: int| default_seq),
                    }),
            decreases rows - i,
        {
            v.push(RowState::Active(ActiveRow::new(cols, default_payload, default_seq)));
            i = i + 1;
        }
        let res = AtomicGrid { rows: v, cols };
        assert(res@.rows =~= Seq::new(
            rows as nat,
            |r: int| GridRowView {
                frozen: false,
                payloads: Seq::new(cols as nat, |_i: int| default_payload),
                seqs: Seq::new(cols as nat, |_i: int| default_seq),
            },
        ));
        res
    }

    /// Freezes a row: its payloads and sequences become immutable values.
    /// A row that is already frozen stays as it is.
    pub fn freeze_row(&mut self, row: usize) -> (res: Result<(), WriteError>)
        requires
            old(self).wf(),
        ensures
            final(self).wf(),
            row >= old(self)@.rows.len() ==> res == Err::<(), WriteError>(WriteError::CoordOutOfBounds)
                && final(self)@ == old(self)@,
            row < old(self)@.rows.len() ==> res is Ok && final(self)@ == spec_freeze(old(self)@, row as int),
    {
        if row >= self.rows.len() {
            return Err(WriteError::CoordOutOfBounds);
        }
        let ghost old_rows = self@.rows;
        let mut current = RowState::Frozen { payloads: Vec::new(), seqs: Vec::new() };
        std::mem::swap(&mut current, &mut self.rows[row]);
        let next = match current {
            RowState::Active(r) => {
                let n = r.cols();
                let mut payloads: Vec<u64> = Vec::with_capacity(n);
                let mut seqs: Vec<SeqNum> = Vec::with_capacity(n);
                let mut i: usize = 0;
                while i < n
                    invariant
                        n == r.payloads@.len(),
                        r.payloads@.len() == r.seqs@.len(),
                        i <= n,
                        payloads@ == r.payloads@.subrange(0, i as int),
                        seqs@ == r.seqs@.subrange(0, i as int),
                    decreases n - i,
                {
                    payloads.push(r.payloads[i]);
                    seqs.push(r.seqs[i]);
                    i = i + 1;
                }
                assert(payloads@ =~= r.payloads@);
                assert(seqs@ =~= r.seqs@);
                RowState::Frozen { payloads, seqs }
            },
            RowState::Frozen { payloads, seqs } => RowState::Frozen { payloads, seqs },
        };
        self.rows.set(row, next);
        assert(self@.rows =~= old_rows.update(row as int, GridRowView { frozen: true, ..old_rows[row as int] }));
        Ok(())
    }

    /// Thaws a frozen row back into a writable row with the same payloads and
    /// sequences. A row that is already active stays as it is.
    pub fn thaw_row(&mut self, row: usize, seq: SeqNum) -> (res: Result<(), WriteError>)
        requires
            old(self).wf(),
        ensures
            final(self).wf(),
            row >= old(self)@.rows.len() ==> res == Err::<(), WriteError>(WriteError::CoordOutOfBounds)
                && final(self)@ == old(self)@,
            row < old(self)@.rows.len() ==> res is Ok && final(self)@ == spec_thaw(old(self)@, row as int),
    {
        if row >= self.rows.len() {
            return Err(WriteError::CoordOutOfBounds);
        }
        let ghost old_rows = self@.rows;
        let mut current = RowState::Frozen { payloads: Vec::new(), seqs: Vec::new() };
        std::mem::swap(&mut current, &mut self.rows[row]);
        let next = match current {
            RowState::Frozen { payloads, seqs } => {
                let cols = payloads.len();
                let mut active = ActiveRow::new(cols, 0, seq);
                let mut i: usize = 0;
                while i < cols
                    invariant
                        cols == payloads@.len(),
                        payloads@.len() == seqs@.len(),
                        i <= cols,
                        active.payloads@.len() == cols,
                        active.seqs@.len() == cols,
                        forall|c: int| 0 <= c < i ==> active.payloads@[c] == payloads@[c],
                        forall|c: int| 0 <= c < i ==> active.seqs@[c] == seqs@[c],
                    decreases cols - i,
                {
                    active.payloads.set(i, payloads[i]);
                    active.seqs.set(i, seqs[i]);
                    i = i + 1;
                }
                assert(active.payloads@ =~= payloads@);
                assert(active.seqs@ =~= seqs@);
                RowState::Active(active)
            },
            RowState::Active(r) => RowState::Active(r),
        };
        self.rows.set(row, next);
        assert(self@.rows =~= old_rows.update(row as int, GridRowView { frozen: false, ..old_rows[row as int] }));
        Ok(())
    }
}


impl ActiveRow {
    /// Overwrites the columns in [col0, col1) whose sequence is older than
    /// `seq`; returns (written, skipped).
    fn fill_cols(&mut self, col0: usize, col1: usize, seq: SeqNum, payload: u64) -> (res: (usize, usize))
        requires
            col0 <= col1 <= old(self).payloads@.len(),
            old(self).payloads@.len() == old(self).seqs@.len(),
        ensures
            RowState::Active(*final(self)).view_row() == fill_row_view(
                RowState::Active(*old(self)).view_row(),
                col0 as int,
                col1 as int,
                seq,
                payload,
            ),
            res.0 == count_older(old(self).seqs@, col0 as int, col1 as int, seq),
            res.0 + res.1 == col1 - col0,
    {
        let ghost old_p = self.payloads@;
        let ghost old_s = self.seqs@;
        let mut written: usize = 0;
        let mut skipped: usize = 0;
        let mut col = col0;
        while col < col1
            invariant
                col0 <= col <= col1 <= old_p.len(),
                old_p.len() == old_s.len(),
                self.payloads@.len() == old_p.len(),
                self.seqs@.len() == old_s.len(),
                forall|c: int|
                    0 <= c < old_p.len() ==> #[trigger] self.payloads@[c] == (if col0 <= c < col && old_s[c] < seq {
                        payload
                    } else {
                        old_p[c]
                    }),
                forall|c: int|
                    0 <= c < old_s.len() ==> #[trigger] self.seqs@[c] == (if col0 <= c < col && old_s[c] < seq {
                        seq
                    } else {
                        old_s[c]
                    }),
                written == count_older(old_s, col0 as int, col as int, seq),
                written + skipped == col - col0,
            decreases col1 - col,
        {
            let cur_seq = self.seqs[col];
            if seq <= cur_seq {
                skipped = skipped + 1;
            } else {
                self.payloads.set(col, payload);
                self.seqs.set(col, seq);
                written = written + 1;
            }
            col = col + 1;
        }
        assert(RowState::Active(*self).view_row().payloads =~= fill_row_view(
            RowState::Active(*old(self)).view_row(),
            col0 as int,
            col1 as int,
            seq,
            payload,
        ).payloads);
        assert(RowState::Active(*self).view_row().seqs =~= fill_row_view(
            RowState::Active(*old(self)).view_row(),
            col0 as int,
            col1 as int,
            seq,
            payload,
        ).seqs);
        (written, skipped)
    }
}

impl AtomicGrid {
    fn row_is_frozen(&self, row: usize) -> (res: bool)
        requires
            row < self@.rows.len(),
        ensures
            res == self@.rows[row as int].frozen,
    {
        match &self.rows[row] {
            RowState::Active(_) => false,
            RowState::Frozen { .. } => true,
        }
    }
}

impl GridCache for AtomicGrid {
    open spec fn well_formed(&self) -> bool {
        self.wf()
    }

    open spec fn accepts_write(&self, row: usize, col: usize) -> bool {
        true
    }

    open spec fn accepts_fill(&self, row0: usize, col0: usize, row1: usize, col1: usize) -> bool {
        true
    }

    open spec fn shape(&self) -> (nat, nat) {
        (self@.rows.len(), self@.cols)
    }

    /// The cell's payload and sequence, or `None` outside the grid.
    open spec fn cell_at(&self, row: usize, col: usize) -> Option<CellSnapshot> {
        if row < self@.rows.len() && col < self@.cols {
            Some(
                CellSnapshot {
                    payload: self@.rows[row as int].payloads[col as int],
                    seq: self@.rows[row as int].seqs[col as int],
                },
            )
        } else {
            None
        }
    }

    fn dims(&self) -> (res: (usize, usize)) {
        (self.rows.len(), self.cols)
    }

    fn write_cell_if_newer(&mut self, row: usize, col: usize, new_seq: SeqNum, payload: u64) -> (res: Result<
        WriteOutcome,
        WriteError,
    >)
        ensures
            final(self)@ == spec_atomic_write(old(self)@, row as int, col as int, new_seq, payload).0,
            res == spec_atomic_write(old(self)@, row as int, col as int, new_seq, payload).1,
    {
        if row >= self.rows.len() {
            return Err(WriteError::CoordOutOfBounds);
        }
        if self.row_is_frozen(row) {
            return Err(WriteError::CoordOutOfBounds);
        }
        let ghost old_rows = self@.rows;
        let mut current = RowState::Frozen { payloads: Vec::new(), seqs: Vec::new() };
        std::mem::swap(&mut current, &mut self.rows[row]);
        let mut r = match current {
            RowState::Active(r) => r,
            RowState::Frozen { .. } => {
                // `row_is_frozen` returned false, so the row is active.
                proof {
                    assert(false);
                }
                ActiveRow { payloads: Vec::new(), seqs: Vec::new() }
            },
        };
        if col >= r.cols() {
            self.rows.set(row, RowState::Active(r));
            assert(self@.rows =~= old_rows);
            return Err(WriteError::CoordOutOfBounds);
        }
        let cur_seq = r.seqs[col];
        if new_seq < cur_seq {
            self.rows.set(row, RowState::Active(r));
            assert(self@.rows =~= old_rows);
            return Ok(WriteOutcome::SkippedOlder);
        }
        if new_seq == cur_seq {
            self.rows.set(row, RowState::Active(r));
            assert(self@.rows =~= old_rows);
            return Ok(WriteOutcome::SkippedEqual);
        }
        r.payloads.set(col, payload);
        r.seqs.set(col, new_seq);
        self.rows.set(row, RowState::Active(r));
        assert(self@.rows =~= old_rows.update(
            row as int,
            GridRowView {
                frozen: false,
                payloads: old_rows[row as int].payloads.update(col as int, payload),
                seqs: old_rows[row as int].seqs.update(col as int, new_seq),
            },
        ));
        Ok(WriteOutcome::Written)
    }

    fn fill_rect_if_newer(
        &mut self,
        row0: usize,
        col0: usize,
        row1: usize,
        col1: usize,
        new_seq: SeqNum,
        payload: u64,
    ) -> (res: Result<(usize, usize), WriteError>)
        ensures
            final(self)@.cols == old(self)@.cols,
            (row0 > row1 || col0 > col1) ==> res == Ok::<(usize, usize), WriteError>((0, 0)) && final(self)@
                == old(self)@,
            (row0 <= row1 && col0 <= col1 && row1 > old(self)@.rows.len()) ==> res == Err::<
                (usize, usize),
                WriteError,
            >(WriteError::CoordOutOfBounds) && final(self)@ == old(self)@,
            (row0 < row1 && col0 <= col1 && row1 <= old(self)@.rows.len() && !old(self)@.rows[row0 as int].frozen
                && col1 > old(self)@.cols) ==> res == Err::<(usize, usize), WriteError>(
                WriteError::CoordOutOfBounds,
            ) && final(self)@ == old(self)@,
            (row0 <= row1 && col0 <= col1 && row1 <= old(self)@.rows.len() && (row0 == row1
                || old(self)@.rows[row0 as int].frozen || col1 <= old(self)@.cols)) ==> {
                let stop = first_frozen(old(self)@.rows, row0 as int, row1 as int);
                let written = rect_older(old(self)@.rows, row0 as int, row1 as int, col0 as int, col1 as int, new_seq);
                &&& final(self)@.rows == fill_rows_view(
                    old(self)@.rows,
                    row0 as int,
                    stop,
                    col0 as int,
                    col1 as int,
                    new_seq,
                    payload,
                )
                &&& stop < row1 ==> res == Err::<(usize, usize), WriteError>(WriteError::CoordOutOfBounds)
                &&& stop == row1 ==> res == Ok::<(usize, usize), WriteError>(
                    (written as usize, ((row1 - row0) * (col1 - col0) - written) as usize),
                )
            },
    {
        if row0 > row1 || col0 > col1 {
            return Ok((0, 0));
        }
        if row1 > self.rows.len() {
            return Err(WriteError::CoordOutOfBounds);
        }
        let ghost old_rows = self@.rows;
        let ghost stop = first_frozen(old_rows, row0 as int, row1 as int);
        proof {
            lemma_first_frozen_bounds(old_rows, row0 as int, row1 as int);
        }
        let mut written: usize = 0;
        let mut skipped: usize = 0;
        let mut row = row0;
        while row < row1
            invariant
                self.wf(),
                self.cols == old(self).cols,
                self@.rows.len() == old_rows.len(),
                old_rows == old(self)@.rows,
                stop == first_frozen(old_rows, row0 as int, row1 as int),
                row0 <= row <= stop <= row1 <= old_rows.len(),
                forall|r: int| row0 <= r < stop ==> !(#[trigger] old_rows[r]).frozen,
                stop < row1 ==> old_rows[stop].frozen,
                row > row0 ==> col1 <= self.cols,
                col0 <= col1,
                forall|r: int|
                    0 <= r < old_rows.len() ==> #[trigger] self@.rows[r] == (if row0 <= r < row {
                        fill_row_view(old_rows[r], col0 as int, col1 as int, new_seq, payload)
                    } else {
                        old_rows[r]
                    }),
                written == rect_older(old_rows, row0 as int, row as int, col0 as int, col1 as int, new_seq),
                written + skipped == (row - row0) * (col1 - col0),
            decreases row1 - row,
        {
            if self.row_is_frozen(row) {
                assert(self@.rows =~= fill_rows_view(old_rows, row0 as int, stop, col0 as int, col1 as int, new_seq, payload));
                return Err(WriteError::CoordOutOfBounds);
            }
            if col1 > self.cols {
                assert(self@.rows =~= old_rows);
                return Err(WriteError::CoordOutOfBounds);
            }
            let ghost before = self@.rows;
            let mut current = RowState::Frozen { payloads: Vec::new(), seqs: Vec::new() };
            std::mem::swap(&mut current, &mut self.rows[row]);
            let mut r = match current {
                RowState::Active(r) => r,
                RowState::Frozen { .. } => {
                    proof {
                        assert(false);
                    }
                    ActiveRow { payloads: Vec::new(), seqs: Vec::new() }
                },
            };
            assert(RowState::Active(r).view_row() == old_rows[row as int]);
            let (w, s) = r.fill_cols(col0, col1, new_seq, payload);
            self.rows.set(row, RowState::Active(r));
            assert forall|k: int| 0 <= k < old_rows.len() implies #[trigger] self@.rows[k] == (if row0 <= k
                < row + 1 {
                fill_row_view(old_rows[k], col0 as int, col1 as int, new_seq, payload)
            } else {
                old_rows[k]
            }) by {
                if k != row as int {
                    assert(self@.rows[k] == before[k]);
                }
            }
            proof {
                lemma_rect_older_bound(old_rows, row0 as int, row as int + 1, col0 as int, col1 as int, new_seq);
                assert((row + 1 - row0) * (col1 - col0) <= old_rows.len() * self.cols) by (nonlinear_arith)
                    requires
                        row + 1 - row0 <= old_rows.len(),
                        col1 - col0 <= self.cols,
                        row0 <= row,
                        col0 <= col1,
                ;
                assert((row + 1 - row0) * (col1 - col0) == (row - row0) * (col1 - col0) + (col1 - col0))
                    by (nonlinear_arith);
            }
            written = written + w;
            skipped = skipped + s;
            row = row + 1;
        }
        assert(self@.rows =~= fill_rows_view(old_rows, row0 as int, stop, col0 as int, col1 as int, new_seq, payload));
        Ok((written, skipped))
    }

    fn snapshot_row_into(&self, row: usize, out: &mut [u64]) -> (res: Result<(), WriteError>)
        ensures
            row >= self@.rows.len() ==> res == Err::<(), WriteError>(WriteError::CoordOutOfBounds) && final(out)@
                == old(out)@,
            row < self@.rows.len() && old(out)@.len() != self@.cols ==> res == Err::<(), WriteError>(
                WriteError::CoordOutOfBounds,
            ) && final(out)@ == old(out)@,
            row < self@.rows.len() && old(out)@.len() == self@.cols ==> res is Ok && final(out)@
                == self@.rows[row as int].payloads,
    {
        if row >= self.rows.len() {
            return Err(WriteError::CoordOutOfBounds);
        }
        let payloads: &Vec<u64> = match &self.rows[row] {
            RowState::Active(r) => &r.payloads,
            RowState::Frozen { payloads, .. } => payloads,
        };
        if out.len() != payloads.len() {
            return Err(WriteError::CoordOutOfBounds);
        }
        let n = payloads.len();
        let mut i: usize = 0;
        while i < n
            invariant
                n == payloads@.len(),
                out@.len() == n,
                i <= n,
                forall|c: int| 0 <= c < i ==> out@[c] == payloads@[c],
            decreases n - i,
        {
            out[i] = payloads[i];
            i = i + 1;
        }
        assert(out@ =~= payloads@);
        Ok(())
    }

    fn get_cell_relaxed(&self, row: usize, col: usize) -> (res: Option<CellSnapshot>) {
        if row >= self.rows.len() {
            return None;
        }
        match &self.rows[row] {
            RowState::Active(r) => {
                if col >= r.cols() {
                    return None;
                }
                Some(CellSnapshot::new(r.payloads[col], r.seqs[col]))
            },
            RowState::Frozen { payloads, seqs } => {
                if col >= payloads.len() {
                    return None;
                }
                let seq = if col < seqs.len() {
                    seqs[col]
                } else {
                    0
                };
                Some(CellSnapshot::new(payloads[col], seq))
            },
        }
    }
}

} // verus!

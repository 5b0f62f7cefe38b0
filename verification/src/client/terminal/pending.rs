//! The predictions still waiting for the host: one per input, in the order
//! of their sequence numbers, with the cells they predict and where they
//! leave the cursor.
//!
//! Times are readings of a monotonic clock in milliseconds, supplied by the
//! caller.

use vstd::prelude::*;

use super::prediction::PredictedPosition;
use crate::client::grid_renderer::predictions::{
    col_end, filter_drops_some, filtered, has_prediction_on_row, PredictionFilter,
};
use crate::client::grid_renderer::{rel_index, shrunk_rows, width_shrinks, GridRenderer, RendererView, SlotView};

verus! {

/// An input's prediction waiting for the host.
#[derive(Clone, Debug)]
pub struct PendingPrediction {
    pub positions: Vec<PredictedPosition>,
    pub sent_at: u64,
    pub acked_at: Option<u64>,
    pub cursor_row: usize,
    pub cursor_col: usize,
}

/// The content of a `PendingPrediction`.
pub struct PendingView {
    pub positions: Seq<PredictedPosition>,
    pub sent_at: u64,
    pub acked_at: Option<u64>,
    pub cursor_row: usize,
    pub cursor_col: usize,
}

impl View for PendingPrediction {
    type V = PendingView;

    open spec fn view(&self) -> PendingView {
        PendingView {
            positions: self.positions@,
            sent_at: self.sent_at,
            acked_at: self.acked_at,
            cursor_row: self.cursor_row,
            cursor_col: self.cursor_col,
        }
    }
}

/// The predictions waiting for the host, by sequence number.
#[derive(Debug)]
pub struct PendingPredictions {
    entries: Vec<(u64, PendingPrediction)>,
}

/// The entries by their content.
pub open spec fn entries_view(s: Seq<(u64, PendingPrediction)>) -> Seq<(u64, PendingView)> {
    s.map_values(|e: (u64, PendingPrediction)| (e.0, e.1@))
}

/// Whether the sequence numbers strictly increase.
pub open spec fn sorted_keys(s: Seq<(u64, PendingView)>) -> bool {
    forall|i: int, j: int| 0 <= i < j < s.len() ==> (#[trigger] s[i]).0 < (#[trigger] s[j]).0
}

impl View for PendingPredictions {
    type V = Seq<(u64, PendingView)>;

    closed spec fn view(&self) -> Seq<(u64, PendingView)> {
        entries_view(self.entries@)
    }
}

/// Whether `seq` has a prediction waiting.
pub open spec fn has_seq(s: Seq<(u64, PendingView)>, seq: u64) -> bool {
    exists|i: int| 0 <= i < s.len() && (#[trigger] s[i]).0 == seq
}

/// The entries with `(seq, p)` added in order, replacing an entry of `seq`.
pub open spec fn insert_sorted(s: Seq<(u64, PendingView)>, seq: u64, p: PendingView) -> Seq<(u64, PendingView)>
    decreases s.len(),
{
    if s.len() == 0 {
        seq![(seq, p)]
    } else if s[0].0 == seq {
        s.update(0, (seq, p))
    } else if s[0].0 > seq {
        seq![(seq, p)] + s
    } else {
        seq![s[0]] + insert_sorted(s.drop_first(), seq, p)
    }
}

/// The cursor the newest prediction leaves: its sequence number, row and
/// column.
pub open spec fn spec_latest_cursor(s: Seq<(u64, PendingView)>) -> Option<(u64, usize, usize)> {
    if s.len() == 0 {
        None
    } else {
        Some((s.last().0, s.last().1.cursor_row, s.last().1.cursor_col))
    }
}

/// `a - b`, at least zero.
pub open spec fn sub_sat(a: usize, b: usize) -> usize {
    if a >= b {
        (a - b) as usize
    } else {
        0
    }
}

/// A position moved `delta` columns left when on row `row`.
pub open spec fn rebase_position(p: PredictedPosition, row: usize, delta: usize) -> PredictedPosition {
    if p.row == row {
        PredictedPosition { col: sub_sat(p.col, delta), ..p }
    } else {
        p
    }
}

/// A prediction whose cells and cursor on row `row` moved `delta` columns
/// left.
pub open spec fn rebase_prediction(p: PendingView, row: usize, delta: usize) -> PendingView {
    PendingView {
        positions: p.positions.map_values(|q: PredictedPosition| rebase_position(q, row, delta)),
        cursor_col: if p.cursor_row == row {
            sub_sat(p.cursor_col, delta)
        } else {
            p.cursor_col
        },
        ..p
    }
}

/// Whether moving `delta` columns left changes a cell of some prediction.
pub open spec fn rebase_moves_some(s: Seq<(u64, PendingView)>, row: usize, delta: usize) -> bool {
    exists|i: int, j: int|
        0 <= i < s.len() && 0 <= j < s[i].1.positions.len() && (#[trigger] s[i].1.positions[j]).row == row
            && sub_sat(s[i].1.positions[j].col, delta) != s[i].1.positions[j].col
}

/// A block of cells: rows `row_start..row_end`, and columns from
/// `col_start` up to `col_stop` (every column on when `None`).
#[derive(Clone, Copy, Debug, PartialEq, Eq, Structural)]
pub struct CellRegion {
    pub row_start: u64,
    pub row_end: u64,
    pub col_start: u64,
    pub col_stop: Option<u64>,
}

/// Whether `p` lies in `r`.
pub open spec fn in_region(p: PredictedPosition, r: CellRegion) -> bool {
    &&& r.row_start <= p.row < r.row_end
    &&& r.col_start <= p.col
    &&& (r.col_stop matches Some(e) ==> p.col < e)
}

/// Whether a prediction has a cell in `r`.
pub open spec fn touches_region(p: PendingView, r: CellRegion) -> bool {
    exists|j: int| 0 <= j < p.positions.len() && in_region(#[trigger] p.positions[j], r)
}

/// The entries without those touching `r`, in order.
pub open spec fn entries_outside(s: Seq<(u64, PendingView)>, r: CellRegion) -> Seq<(u64, PendingView)>
    decreases s.len(),
{
    if s.len() == 0 {
        Seq::empty()
    } else {
        let rest = entries_outside(s.drop_last(), r);
        if touches_region(s.last().1, r) {
            rest
        } else {
            rest.push(s.last())
        }
    }
}

/// Whether some entry touches `r`.
pub open spec fn any_touches(s: Seq<(u64, PendingView)>, r: CellRegion) -> bool {
    exists|i: int| 0 <= i < s.len() && touches_region((#[trigger] s[i]).1, r)
}

proof fn lemma_outside_sorted(s: Seq<(u64, PendingView)>, r: CellRegion)
    requires
        sorted_keys(s),
    ensures
        sorted_keys(entries_outside(s, r)),
        forall|k: int|
            0 <= k < entries_outside(s, r).len() ==> exists|j: int|
                0 <= j < s.len() && s[j] == #[trigger] entries_outside(s, r)[k],
        forall|k: int| 0 <= k < entries_outside(s, r).len() ==> !touches_region(#[trigger] entries_outside(s, r)[k].1, r),
        (entries_outside(s, r).len() == s.len()) <==> !any_touches(s, r),
    decreases s.len(),
{
    if s.len() > 0 {
        let t = s.drop_last();
        assert(sorted_keys(t)) by {
            assert forall|a: int, b: int| 0 <= a < b < t.len() implies (#[trigger] t[a]).0 < (#[trigger] t[b]).0 by {
                assert(t[a] == s[a] && t[b] == s[b]);
            }
        }
        lemma_outside_sorted(t, r);
        let rest = entries_outside(t, r);
        let whole = entries_outside(s, r);
        assert(rest.len() <= t.len()) by {
            lemma_outside_len(t, r);
        }
        assert forall|k: int| 0 <= k < whole.len() implies exists|j: int| 0 <= j < s.len() && s[j] == #[trigger] whole[k] by {
            if k < rest.len() {
                let j = choose|j: int| 0 <= j < t.len() && t[j] == rest[k];
                assert(s[j] == whole[k]);
            } else {
                assert(s[s.len() - 1] == whole[k]);
            }
        }
        assert forall|k: int| 0 <= k < whole.len() implies !touches_region(#[trigger] whole[k].1, r) by {
            if k < rest.len() {
                assert(whole[k] == rest[k]);
            }
        }
        if !touches_region(s.last().1, r) {
            assert forall|a: int, b: int| 0 <= a < b < whole.len() implies (#[trigger] whole[a]).0 < (#[trigger] whole[b]).0 by {
                if b < rest.len() {
                    assert(whole[a] == rest[a] && whole[b] == rest[b]);
                } else {
                    let j = choose|j: int| 0 <= j < t.len() && t[j] == rest[a];
                    assert(whole[a] == rest[a]);
                    assert(s[j] == t[j]);
                    assert(whole[b] == s[s.len() - 1]);
                }
            }
        }
        if any_touches(t, r) {
            let i = choose|i: int| 0 <= i < t.len() && touches_region((#[trigger] t[i]).1, r);
            assert(s[i] == t[i]);
        }
        if any_touches(s, r) && !touches_region(s.last().1, r) {
            let i = choose|i: int| 0 <= i < s.len() && touches_region((#[trigger] s[i]).1, r);
            assert(i < t.len());
            assert(t[i] == s[i]);
        }
    }
}

/// No entry left after dropping those touching `r` touches it.
pub proof fn lemma_outside_untouched(s: Seq<(u64, PendingView)>, r: CellRegion)
    ensures
        forall|k: int| 0 <= k < entries_outside(s, r).len() ==> !touches_region(#[trigger] entries_outside(s, r)[k].1, r),
    decreases s.len(),
{
    if s.len() > 0 {
        lemma_outside_untouched(s.drop_last(), r);
        let rest = entries_outside(s.drop_last(), r);
        let whole = entries_outside(s, r);
        assert forall|k: int| 0 <= k < whole.len() implies !touches_region(#[trigger] whole[k].1, r) by {
            if k < rest.len() {
                assert(whole[k] == rest[k]);
            }
        }
    }
}

proof fn lemma_outside_len(s: Seq<(u64, PendingView)>, r: CellRegion)
    ensures
        entries_outside(s, r).len() <= s.len(),
    decreases s.len(),
{
    if s.len() > 0 {
        lemma_outside_len(s.drop_last(), r);
    }
}

fn touches_cells(p: &PendingPrediction, r: CellRegion) -> (res: bool)
    ensures
        res == touches_region(p@, r),
{
    let m = p.positions.len();
    let mut j: usize = 0;
    while j < m
        invariant
            m == p.positions@.len(),
            j <= m,
            forall|k: int| 0 <= k < j ==> !in_region(#[trigger] p.positions@[k], r),
        decreases m - j,
    {
        let q = p.positions[j];
        let inside = r.row_start <= q.row as u64 && (q.row as u64) < r.row_end && r.col_start <= q.col as u64 && match r.col_stop {
            Some(e) => (q.col as u64) < e,
            None => true,
        };
        if inside {
            assert(p@.positions[j as int] == q);
            return true;
        }
        j = j + 1;
    }
    false
}

/// Whether a prediction has a cell on row `row` at or right of `col`.
pub open spec fn reaches_from(p: PendingView, row: usize, col: usize) -> bool {
    exists|j: int| 0 <= j < p.positions.len() && (#[trigger] p.positions[j]).row == row && p.positions[j].col >= col
}

/// The entries without those reaching (`row`, `col`), in order.
pub open spec fn entries_kept(s: Seq<(u64, PendingView)>, row: usize, col: usize) -> Seq<(u64, PendingView)>
    decreases s.len(),
{
    if s.len() == 0 {
        Seq::empty()
    } else {
        let rest = entries_kept(s.drop_last(), row, col);
        if reaches_from(s.last().1, row, col) {
            rest
        } else {
            rest.push(s.last())
        }
    }
}

/// The sequence numbers of the entries reaching (`row`, `col`), in order.
pub open spec fn seqs_dropped(s: Seq<(u64, PendingView)>, row: usize, col: usize) -> Seq<u64>
    decreases s.len(),
{
    if s.len() == 0 {
        Seq::empty()
    } else {
        let rest = seqs_dropped(s.drop_last(), row, col);
        if reaches_from(s.last().1, row, col) {
            rest.push(s.last().0)
        } else {
            rest
        }
    }
}

/// The renderer without the predictions of input `seq`.
pub open spec fn clear_seq(v: RendererView, seq: u64) -> RendererView {
    RendererView {
        predictions: filtered(v.predictions, PredictionFilter::NotSeq(seq)),
        needs_redraw: v.needs_redraw || filter_drops_some(v.predictions, PredictionFilter::NotSeq(seq)),
        ..v
    }
}

/// The renderer without the predictions of the inputs `seqs`, cleared in
/// order.
pub open spec fn clear_seqs(v: RendererView, seqs: Seq<u64>) -> RendererView
    decreases seqs.len(),
{
    if seqs.len() == 0 {
        v
    } else {
        clear_seq(clear_seqs(v, seqs.drop_last()), seqs.last())
    }
}

/// Whether the cell at (`row`, `col`) holds `ch` (cells not loaded count
/// as spaces).
pub open spec fn spec_cell_matches(v: RendererView, row: usize, col: usize, ch: char) -> bool {
    match rel_index(v, row as int) {
        Some(i) => match v.rows[i] {
            SlotView::Loaded(r) => if col < r.cells.len() {
                r.cells[col as int].ch == ch
            } else {
                ch == ' '
            },
            _ => ch == ' ',
        },
        None => ch == ' ',
    }
}

/// Whether the renderer no longer shows any cell of the prediction of
/// input `seq`.
pub open spec fn overlay_gone(p: PendingView, v: RendererView, seq: u64) -> bool {
    forall|j: int|
        0 <= j < p.positions.len() ==> !(v.predictions.contains_key(
            ((#[trigger] p.positions[j]).row as u64, p.positions[j].col),
        ) && v.predictions[(p.positions[j].row as u64, p.positions[j].col)].seq == seq)
}

/// Whether the host's text holds every predicted character.
pub open spec fn committed(p: PendingView, v: RendererView) -> bool {
    forall|j: int|
        0 <= j < p.positions.len() ==> spec_cell_matches(
            v,
            (#[trigger] p.positions[j]).row,
            p.positions[j].col,
            p.positions[j].ch,
        )
}

/// Trying to clear the prediction of input `seq`: it is cleared (from the
/// entries and the renderer) when the renderer no longer shows it, when the
/// host's text holds it, or when its acknowledgement is older than the
/// grace period (`ack_expired`); otherwise it waits. Whether it was cleared
/// is returned.
pub open spec fn spec_try_clear(s: Seq<(u64, PendingView)>, v: RendererView, seq: u64, ack_expired: bool) -> (
    Seq<(u64, PendingView)>,
    RendererView,
    bool,
) {
    match position_of(s, seq) {
        Some(i) => {
            let p = s[i].1;
            if overlay_gone(p, v, seq) || committed(p, v) || ack_expired {
                (s.remove(i), clear_seq(v, seq), true)
            } else {
                (s, v, false)
            }
        },
        None => (s, v, false),
    }
}

/// Whether every prediction the renderer shows on row `row` ends by
/// column `col`.
pub open spec fn predictions_end_within(v: RendererView, row: usize, col: usize) -> bool {
    forall|k: (u64, usize)| #[trigger] v.predictions.contains_key(k) && k.0 == row as u64 ==> col_end(k.1) <= col
}

/// Whether some prediction has a cell on row `row` at or right of `col`.
pub open spec fn any_reaches(s: Seq<(u64, PendingView)>, row: usize, col: usize) -> bool {
    exists|i: int| 0 <= i < s.len() && reaches_from((#[trigger] s[i]).1, row, col)
}

/// Whether row `row` shows or awaits a prediction.
pub open spec fn spec_row_has_predictions(s: Seq<(u64, PendingView)>, v: RendererView, row: usize) -> bool {
    has_prediction_on_row(v.predictions, row as u64) || any_reaches(s, row, 0)
}

/// The renderer cut back on row `row` from column `col` on (see
/// `GridRenderer::shrink_row_to_column`), and whether that changed it.
pub open spec fn shrink_row(v: RendererView, row: usize, col: usize) -> (RendererView, bool) {
    let changed = width_shrinks(v, row as int, col as int) || filter_drops_some(
        v.predictions,
        PredictionFilter::NotOnRowFrom(row as u64, col),
    );
    (
        RendererView {
            rows: shrunk_rows(v, row as int, col as int),
            predictions: filtered(v.predictions, PredictionFilter::NotOnRowFrom(row as u64, col)),
            needs_redraw: v.needs_redraw || changed,
            ..v
        },
        changed,
    )
}

/// Discarding the predictions on row `row` from column `col` on (the host's
/// text ends there): nothing when nothing is predicted there; otherwise the
/// predictions awaited with a cell there are dropped, and only when some
/// were is the row cut back on the renderer. Whether predictions were
/// dropped and whether the renderer changed are returned.
pub open spec fn spec_discard_from_column(s: Seq<(u64, PendingView)>, v: RendererView, row: usize, col: usize) -> (
    Seq<(u64, PendingView)>,
    RendererView,
    bool,
    bool,
) {
    if predictions_end_within(v, row, col) && !any_reaches(s, row, col) {
        (s, v, false, false)
    } else {
        let dropped = seqs_dropped(s, row, col);
        let s1 = entries_kept(s, row, col);
        let v1 = clear_seqs(v, dropped);
        if dropped.len() == 0 {
            (s1, v1, false, false)
        } else {
            let (v2, changed) = shrink_row(v1, row, col);
            (s1, v2, true, changed)
        }
    }
}

/// The sequence numbers of the entries, in order.
pub open spec fn seqs_of(s: Seq<(u64, PendingView)>) -> Seq<u64> {
    s.map_values(|e: (u64, PendingView)| e.0)
}

proof fn lemma_kept_reaches_none(s: Seq<(u64, PendingView)>, row: usize, col: usize)
    ensures
        !any_reaches(entries_kept(s, row, col), row, col),
    decreases s.len(),
{
    if s.len() > 0 {
        lemma_kept_reaches_none(s.drop_last(), row, col);
        let r = entries_kept(s.drop_last(), row, col);
        let w = entries_kept(s, row, col);
        assert forall|i: int| 0 <= i < w.len() implies !reaches_from((#[trigger] w[i]).1, row, col) by {
            if i < r.len() {
                assert(w[i] == r[i]);
            }
        }
    }
}

/// After predictions are discarded from a column on, none awaited has a
/// cell on that row at or right of that column.
pub proof fn law_discard_leaves_none_beyond(s: Seq<(u64, PendingView)>, v: RendererView, row: usize, col: usize)
    ensures
        !any_reaches(spec_discard_from_column(s, v, row, col).0, row, col),
{
    lemma_kept_reaches_none(s, row, col);
}

/// A prediction cleared is no longer awaited, and the others stay.
pub proof fn law_cleared_prediction_leaves(s: Seq<(u64, PendingView)>, v: RendererView, seq: u64, ack_expired: bool)
    requires
        sorted_keys(s),
    ensures
        ({
            let (s1, _, cleared) = spec_try_clear(s, v, seq, ack_expired);
            &&& cleared ==> !has_seq(s1, seq)
            &&& forall|k: u64| k != seq ==> (has_seq(s1, k) <==> has_seq(s, k))
        }),
{
    let (s1, _, cleared) = spec_try_clear(s, v, seq, ack_expired);
    if let Some(i) = position_of(s, seq) {
        if cleared {
            assert(s1 == s.remove(i));
            assert forall|j: int| 0 <= j < s1.len() implies (#[trigger] s1[j]).0 != seq by {
                let j2 = if j < i { j } else { j + 1 };
                assert(s1[j] == s[j2]);
            }
            assert forall|k: u64| k != seq implies (has_seq(s1, k) <==> has_seq(s, k)) by {
                if has_seq(s, k) {
                    let j = choose|j: int| 0 <= j < s.len() && s[j].0 == k;
                    assert(j != i);
                    if j < i {
                        assert(s1[j] == s[j]);
                    } else {
                        assert(s1[j - 1] == s[j]);
                    }
                }
                if has_seq(s1, k) {
                    let j = choose|j: int| 0 <= j < s1.len() && s1[j].0 == k;
                    let j2 = if j < i { j } else { j + 1 };
                    assert(s1[j] == s[j2]);
                }
            }
        }
    }
}

/// The index of the entry for `seq`, if any.
pub open spec fn position_of(s: Seq<(u64, PendingView)>, seq: u64) -> Option<int> {
    if has_seq(s, seq) {
        Some(choose|i: int| 0 <= i < s.len() && s[i].0 == seq)
    } else {
        None
    }
}

proof fn lemma_position_of(s: Seq<(u64, PendingView)>, seq: u64, i: int)
    requires
        sorted_keys(s),
        0 <= i < s.len(),
        s[i].0 == seq,
    ensures
        position_of(s, seq) == Some(i),
{
    let j = choose|j: int| 0 <= j < s.len() && s[j].0 == seq;
    if j < i {
        assert(s[j].0 < s[i].0);
    } else if j > i {
        assert(s[i].0 < s[j].0);
    }
}

proof fn lemma_position_of_none(s: Seq<(u64, PendingView)>, seq: u64)
    requires
        !has_seq(s, seq),
    ensures
        position_of(s, seq) is None,
{
}

proof fn lemma_insert_sorted(s: Seq<(u64, PendingView)>, seq: u64, p: PendingView, i: int)
    requires
        sorted_keys(s),
        0 <= i <= s.len(),
        forall|k: int| 0 <= k < i ==> (#[trigger] s[k]).0 < seq,
        i < s.len() ==> s[i].0 >= seq,
    ensures
        insert_sorted(s, seq, p) == (if i < s.len() && s[i].0 == seq {
            s.update(i, (seq, p))
        } else {
            s.insert(i, (seq, p))
        }),
        sorted_keys(insert_sorted(s, seq, p)),
    decreases s.len(),
{
    if s.len() == 0 {
        assert(s.insert(0, (seq, p)) =~= seq![(seq, p)]);
    } else if s[0].0 == seq {
        assert(i == 0);
    } else if s[0].0 > seq {
        assert(i == 0);
        assert(s.insert(0, (seq, p)) =~= seq![(seq, p)] + s);
    } else {
        let t = s.drop_first();
        assert(i >= 1);
        assert forall|k: int| 0 <= k < i - 1 implies (#[trigger] t[k]).0 < seq by {
            assert(t[k] == s[k + 1]);
        }
        assert(sorted_keys(t)) by {
            assert forall|a: int, b: int| 0 <= a < b < t.len() implies (#[trigger] t[a]).0 < (#[trigger] t[b]).0 by {
                assert(t[a] == s[a + 1] && t[b] == s[b + 1]);
            }
        }
        lemma_insert_sorted(t, seq, p, i - 1);
        let r = insert_sorted(t, seq, p);
        if i < s.len() && s[i].0 == seq {
            assert(seq![s[0]] + t.update(i - 1, (seq, p)) =~= s.update(i, (seq, p)));
        } else {
            assert(seq![s[0]] + t.insert(i - 1, (seq, p)) =~= s.insert(i, (seq, p)));
        }
        let whole = seq![s[0]] + r;
        assert forall|a: int, b: int| 0 <= a < b < whole.len() implies (#[trigger] whole[a]).0 < (#[trigger] whole[b]).0 by {
            if a == 0 {
                assert(whole[b] == r[b - 1]);
                if i - 1 < t.len() && t[i - 1].0 == seq {
                    assert(r == t.update(i - 1, (seq, p)));
                    if b - 1 == i - 1 {
                    } else {
                        assert(r[b - 1] == t[b - 1]);
                        assert(t[b - 1] == s[b]);
                    }
                } else {
                    assert(r == t.insert(i - 1, (seq, p)));
                    if b - 1 < i - 1 {
                        assert(r[b - 1] == t[b - 1]);
                        assert(t[b - 1] == s[b]);
                    } else if b - 1 == i - 1 {
                    } else {
                        assert(r[b - 1] == t[b - 2]);
                        assert(t[b - 2] == s[b - 1]);
                    }
                }
            } else {
                assert(whole[a] == r[a - 1] && whole[b] == r[b - 1]);
            }
        }
    }
}

proof fn lemma_view_update(s: Seq<(u64, PendingPrediction)>, i: int, e: (u64, PendingPrediction))
    requires
        0 <= i < s.len(),
    ensures
        entries_view(s.update(i, e)) == entries_view(s).update(i, (e.0, e.1@)),
{
    assert(entries_view(s.update(i, e)) =~= entries_view(s).update(i, (e.0, e.1@)));
}

proof fn lemma_view_insert(s: Seq<(u64, PendingPrediction)>, i: int, e: (u64, PendingPrediction))
    requires
        0 <= i <= s.len(),
    ensures
        entries_view(s.insert(i, e)) == entries_view(s).insert(i, (e.0, e.1@)),
{
    assert(entries_view(s.insert(i, e)) =~= entries_view(s).insert(i, (e.0, e.1@)));
}

proof fn lemma_view_push(s: Seq<(u64, PendingPrediction)>, e: (u64, PendingPrediction))
    ensures
        entries_view(s.push(e)) == entries_view(s).push((e.0, e.1@)),
{
    assert(entries_view(s.push(e)) =~= entries_view(s).push((e.0, e.1@)));
}

proof fn lemma_view_remove(s: Seq<(u64, PendingPrediction)>, i: int)
    requires
        0 <= i < s.len(),
    ensures
        entries_view(s.remove(i)) == entries_view(s).remove(i),
{
    assert(entries_view(s.remove(i)) =~= entries_view(s).remove(i));
}

proof fn lemma_kept_sorted(s: Seq<(u64, PendingView)>, row: usize, col: usize)
    requires
        sorted_keys(s),
    ensures
        sorted_keys(entries_kept(s, row, col)),
        forall|k: int|
            0 <= k < entries_kept(s, row, col).len() ==> exists|j: int|
                0 <= j < s.len() && s[j] == #[trigger] entries_kept(s, row, col)[k],
    decreases s.len(),
{
    if s.len() > 0 {
        let t = s.drop_last();
        assert(sorted_keys(t)) by {
            assert forall|a: int, b: int| 0 <= a < b < t.len() implies (#[trigger] t[a]).0 < (#[trigger] t[b]).0 by {
                assert(t[a] == s[a] && t[b] == s[b]);
            }
        }
        lemma_kept_sorted(t, row, col);
        let r = entries_kept(t, row, col);
        let whole = entries_kept(s, row, col);
        assert forall|k: int| 0 <= k < whole.len() implies exists|j: int| 0 <= j < s.len() && s[j] == #[trigger] whole[k] by {
            if k < r.len() {
                let j = choose|j: int| 0 <= j < t.len() && t[j] == r[k];
                assert(s[j] == whole[k]);
            } else {
                assert(s[s.len() - 1] == whole[k]);
            }
        }
        if !reaches_from(s.last().1, row, col) {
            assert forall|a: int, b: int| 0 <= a < b < whole.len() implies (#[trigger] whole[a]).0 < (#[trigger] whole[b]).0 by {
                if b < r.len() {
                    assert(whole[a] == r[a] && whole[b] == r[b]);
                } else {
                    let j = choose|j: int| 0 <= j < t.len() && t[j] == r[a];
                    assert(whole[a] == r[a]);
                    assert(s[j] == t[j]);
                    assert(whole[b] == s[s.len() - 1]);
                }
            }
        }
    }
}

/// Whether a prediction has a cell on row `row` at or right of `col`.
fn reaches_cell(p: &PendingPrediction, row: usize, col: usize) -> (res: bool)
    ensures
        res == reaches_from(p@, row, col),
{
    let m = p.positions.len();
    let mut j: usize = 0;
    while j < m
        invariant
            m == p.positions@.len(),
            j <= m,
            forall|k: int| 0 <= k < j ==> !((#[trigger] p.positions@[k]).row == row && p.positions@[k].col >= col),
        decreases m - j,
    {
        let q = p.positions[j];
        if q.row == row && q.col >= col {
            assert(p@.positions[j as int] == q);
            return true;
        }
        j = j + 1;
    }
    false
}

/// Whether the renderer shows no cell of the prediction of input `seq`.
fn overlay_absent(p: &PendingPrediction, renderer: &GridRenderer, seq: u64) -> (res: bool)
    requires
        renderer.wf(),
    ensures
        res == overlay_gone(p@, renderer@, seq),
{
    let m = p.positions.len();
    let mut j: usize = 0;
    while j < m
        invariant
            m == p.positions@.len(),
            renderer.wf(),
            j <= m,
            forall|k: int|
                0 <= k < j ==> !(renderer@.predictions.contains_key(
                    ((#[trigger] p@.positions[k]).row as u64, p@.positions[k].col),
                ) && renderer@.predictions[(p@.positions[k].row as u64, p@.positions[k].col)].seq == seq),
        decreases m - j,
    {
        let q = p.positions[j];
        if renderer.prediction_exists(q.row, q.col, seq) {
            assert(p@.positions[j as int] == q);
            return false;
        }
        j = j + 1;
    }
    true
}

/// Whether the host's text holds every character a prediction predicts.
fn text_matches(p: &PendingPrediction, renderer: &GridRenderer) -> (res: bool)
    requires
        renderer.wf(),
    ensures
        res == committed(p@, renderer@),
{
    let m = p.positions.len();
    let mut j: usize = 0;
    while j < m
        invariant
            m == p.positions@.len(),
            renderer.wf(),
            j <= m,
            forall|k: int|
                0 <= k < j ==> spec_cell_matches(
                    renderer@,
                    (#[trigger] p@.positions[k]).row,
                    p@.positions[k].col,
                    p@.positions[k].ch,
                ),
        decreases m - j,
    {
        let q = p.positions[j];
        if !renderer.cell_matches(q.row, q.col, q.ch) {
            assert(p@.positions[j as int] == q);
            return false;
        }
        j = j + 1;
    }
    true
}

/// A copy of a list of positions.
fn copy_positions(ps: &Vec<PredictedPosition>) -> (res: Vec<PredictedPosition>)
    ensures
        res@ == ps@,
{
    let mut out: Vec<PredictedPosition> = Vec::new();
    let mut i: usize = 0;
    while i < ps.len()
        invariant
            i <= ps@.len(),
            out@ == ps@.take(i as int),
        decreases ps.len() - i,
    {
        out.push(ps[i]);
        proof {
            assert(out@ =~= ps@.take(i + 1));
        }
        i = i + 1;
    }
    proof {
        assert(ps@.take(ps@.len() as int) =~= ps@);
    }
    out
}

impl PendingPredictions {
    /// The entries are in order of their sequence numbers.
    pub closed spec fn wf(&self) -> bool {
        sorted_keys(self@)
    }

    /// No prediction waiting.
    pub fn new() -> (res: Self)
        ensures
            res.wf(),
            res@ == Seq::<(u64, PendingView)>::empty(),
    {
        let res = PendingPredictions { entries: Vec::new() };
        proof {
            assert(res@ =~= Seq::<(u64, PendingView)>::empty());
        }
        res
    }

    /// The number of predictions waiting.
    pub fn len(&self) -> (res: usize)
        ensures
            res == self@.len(),
    {
        self.entries.len()
    }

    /// The cursor the newest prediction leaves (see `spec_latest_cursor`).
    pub fn latest_prediction_cursor(&self) -> (res: Option<(u64, usize, usize)>)
        ensures
            res == spec_latest_cursor(self@),
    {
        let n = self.entries.len();
        if n == 0 {
            None
        } else {
            let e = &self.entries[n - 1];
            Some((e.0, e.1.cursor_row, e.1.cursor_col))
        }
    }

    /// The position of the entry for `seq`.
    fn index_of(&self, seq: u64) -> (res: Option<usize>)
        ensures
            match res {
                Some(i) => i < self@.len() && self@[i as int].0 == seq,
                None => !has_seq(self@, seq),
            },
    {
        let mut i: usize = 0;
        while i < self.entries.len()
            invariant
                i <= self@.len(),
                self@.len() == self.entries@.len(),
                forall|k: int| 0 <= k < i ==> (#[trigger] self@[k]).0 != seq,
            decreases self.entries.len() - i,
        {
            if self.entries[i].0 == seq {
                return Some(i);
            }
            i = i + 1;
        }
        None
    }

    /// Whether `seq` has a prediction waiting.
    pub fn contains(&self, seq: u64) -> (res: bool)
        ensures
            res == has_seq(self@, seq),
    {
        self.index_of(seq).is_some()
    }

    /// Records the prediction of input `seq`, in order, replacing one
    /// already recorded for it.
    pub fn insert(&mut self, seq: u64, p: PendingPrediction)
        requires
            old(self).wf(),
        ensures
            final(self).wf(),
            final(self)@ == insert_sorted(old(self)@, seq, p@),
    {
        let n = self.entries.len();
        let mut i: usize = 0;
        while i < n && self.entries[i].0 < seq
            invariant
                n == self@.len(),
                n == self.entries@.len(),
                i <= n,
                forall|k: int| 0 <= k < i ==> (#[trigger] self@[k]).0 < seq,
            decreases n - i,
        {
            i = i + 1;
        }
        proof {
            lemma_insert_sorted(self@, seq, p@, i as int);
        }
        if i < n && self.entries[i].0 == seq {
            proof {
                lemma_view_update(self.entries@, i as int, (seq, p));
            }
            self.entries.set(i, (seq, p));
        } else {
            proof {
                lemma_view_insert(self.entries@, i as int, (seq, p));
            }
            self.entries.insert(i, (seq, p));
        }
    }

    /// Notes that the host acknowledged input `seq` at `now`; whether it
    /// had a prediction waiting is returned.
    pub fn mark_acked(&mut self, seq: u64, now: u64) -> (res: bool)
        requires
            old(self).wf(),
        ensures
            final(self).wf(),
            res == has_seq(old(self)@, seq),
            match position_of(old(self)@, seq) {
                Some(i) => final(self)@ == old(self)@.update(
                    i,
                    (seq, PendingView { acked_at: Some(now), ..old(self)@[i].1 }),
                ),
                None => final(self)@ == old(self)@,
            },
    {
        match self.index_of(seq) {
            Some(i) => {
                proof {
                    lemma_position_of(self@, seq, i as int);
                }
                let (k, mut p) = self.entries.remove(i);
                p.acked_at = Some(now);
                self.entries.insert(i, (k, p));
                proof {
                    assert(self@ =~= old(self)@.update(i as int, (seq, PendingView { acked_at: Some(now), ..old(self)@[i as int].1 })));
                }
                true
            },
            None => {
                proof {
                    lemma_position_of_none(self@, seq);
                }
                false
            },
        }
    }

    /// Moves the cells and cursors of every prediction on row `row`
    /// `delta` columns left; whether some cell moved is returned.
    fn rebase_pending(&mut self, row: usize, delta: usize) -> (res: bool)
        requires
            old(self).wf(),
        ensures
            final(self).wf(),
            final(self)@ == old(self)@.map_values(|e: (u64, PendingView)| (e.0, rebase_prediction(e.1, row, delta))),
            res == rebase_moves_some(old(self)@, row, delta),
    {
        let ghost old_view = self@;
        let n = self.entries.len();
        let mut out: Vec<(u64, PendingPrediction)> = Vec::new();
        let mut moved = false;
        let mut i: usize = 0;
        while i < n
            invariant
                n == self.entries@.len(),
                self@ == old_view,
                i <= n,
                out@.len() == i,
                entries_view(out@) == old_view.take(i as int).map_values(
                    |e: (u64, PendingView)| (e.0, rebase_prediction(e.1, row, delta)),
                ),
                moved == exists|a: int, j: int|
                    0 <= a < i && 0 <= j < old_view[a].1.positions.len() && (#[trigger] old_view[a].1.positions[j]).row
                        == row && sub_sat(old_view[a].1.positions[j].col, delta) != old_view[a].1.positions[j].col,
            decreases n - i,
        {
            let e = &self.entries[i];
            let ghost ev = old_view[i as int].1;
            assert(ev == e.1@);
            let m = e.1.positions.len();
            let mut positions: Vec<PredictedPosition> = Vec::new();
            let mut changed = false;
            let mut j: usize = 0;
            while j < m
                invariant
                    m == ev.positions.len(),
                    ev == e.1@,
                    j <= m,
                    positions@ == ev.positions.take(j as int).map_values(
                        |q: PredictedPosition| rebase_position(q, row, delta),
                    ),
                    changed == exists|k: int|
                        0 <= k < j && (#[trigger] ev.positions[k]).row == row && sub_sat(ev.positions[k].col, delta)
                            != ev.positions[k].col,
                decreases m - j,
            {
                let q = e.1.positions[j];
                let moved_q = if q.row == row {
                    let c = q.col.saturating_sub(delta);
                    if c != q.col {
                        changed = true;
                    }
                    PredictedPosition { col: c, ..q }
                } else {
                    q
                };
                positions.push(moved_q);
                proof {
                    assert(positions@ =~= ev.positions.take(j + 1).map_values(
                        |q: PredictedPosition| rebase_position(q, row, delta),
                    ));
                }
                j = j + 1;
            }
            proof {
                assert(ev.positions.take(m as int) =~= ev.positions);
                assert(positions@ == ev.positions.map_values(|q: PredictedPosition| rebase_position(q, row, delta)));
            }
            let cursor_col = if e.1.cursor_row == row {
                e.1.cursor_col.saturating_sub(delta)
            } else {
                e.1.cursor_col
            };
            let p = PendingPrediction {
                positions,
                sent_at: e.1.sent_at,
                acked_at: e.1.acked_at,
                cursor_row: e.1.cursor_row,
                cursor_col,
            };
            if changed {
                moved = true;
            }
            proof {
                assert(p@ == rebase_prediction(ev, row, delta));
                assert(e.0 == old_view[i as int].0);
            }
            let ghost prev = out@;
            let ghost entry = (e.0, p@);
            out.push((e.0, p));
            proof {
                lemma_view_push(prev, out@[i as int]);
                assert(out@ == prev.push(out@[i as int]));
                assert(old_view.take(i + 1).map_values(
                    |e: (u64, PendingView)| (e.0, rebase_prediction(e.1, row, delta)),
                ) =~= old_view.take(i as int).map_values(
                    |e: (u64, PendingView)| (e.0, rebase_prediction(e.1, row, delta)),
                ).push(entry));
            }
            i = i + 1;
        }
        proof {
            assert(old_view.take(n as int) =~= old_view);
        }
        self.entries = out;
        moved
    }

    /// Moves the predictions on row `row` `delta` columns left, on the
    /// renderer and among the entries; whether the renderer's and whether
    /// the entries' moved are returned. Nothing moves for no columns.
    pub fn rebase_predictions_for_row(&mut self, renderer: &mut GridRenderer, row: usize, delta: usize) -> (res: (
        bool,
        bool,
    ))
        requires
            old(self).wf(),
            old(renderer).wf(),
        ensures
            final(self).wf(),
            final(renderer).wf(),
            delta == 0 ==> res == (false, false) && final(self)@ == old(self)@ && final(renderer)@ == old(renderer)@,
            delta > 0 ==> {
                &&& res.0 == has_prediction_on_row(old(renderer)@.predictions, row as u64)
                &&& res.1 == rebase_moves_some(old(self)@, row, delta)
                &&& final(self)@ == old(self)@.map_values(
                    |e: (u64, PendingView)| (e.0, rebase_prediction(e.1, row, delta)),
                )
                &&& final(renderer)@ == (RendererView {
                    predictions: final(renderer)@.predictions,
                    needs_redraw: old(renderer)@.needs_redraw || res.0,
                    ..old(renderer)@
                })
            },
    {
        if delta == 0 {
            return (false, false);
        }
        let shifted = renderer.shift_predictions_left(row, delta);
        let adjusted = self.rebase_pending(row, delta);
        (shifted, adjusted)
    }

    /// Drops the predictions with a cell in `r` (the renderer is left as it
    /// is); whether any was dropped is returned.
    pub fn drop_predictions_in(&mut self, r: CellRegion) -> (res: bool)
        requires
            old(self).wf(),
        ensures
            final(self).wf(),
            final(self)@ == entries_outside(old(self)@, r),
            res == any_touches(old(self)@, r),
    {
        let ghost old_view = self@;
        let n = self.entries.len();
        let mut kept: Vec<(u64, PendingPrediction)> = Vec::new();
        let mut entries = Vec::new();
        std::mem::swap(&mut entries, &mut self.entries);
        let mut i: usize = 0;
        while i < n
            invariant
                n == entries@.len(),
                entries_view(entries@) == old_view,
                i <= n,
                entries_view(kept@) == entries_outside(old_view.take(i as int), r),
            decreases n - i,
        {
            proof {
                assert(old_view.take(i + 1).drop_last() =~= old_view.take(i as int));
                assert(old_view[i as int].1 == entries@[i as int].1@);
            }
            let touches = touches_cells(&entries[i].1, r);
            if !touches {
                let e = &entries[i];
                let p = PendingPrediction {
                    positions: copy_positions(&e.1.positions),
                    sent_at: e.1.sent_at,
                    acked_at: e.1.acked_at,
                    cursor_row: e.1.cursor_row,
                    cursor_col: e.1.cursor_col,
                };
                kept.push((e.0, p));
                proof {
                    assert(entries_view(kept@) =~= entries_view(kept@).drop_last().push(old_view[i as int]));
                }
            }
            i = i + 1;
        }
        proof {
            assert(old_view.take(n as int) =~= old_view);
            lemma_outside_sorted(old_view, r);
            lemma_outside_len(old_view, r);
            assert(entries_view(kept@).len() == kept@.len());
            assert(old_view.len() == n);
        }
        let dropped = kept.len() < n;
        self.entries = kept;
        dropped
    }

    /// Forgets every prediction (the renderer is left as it is).
    pub fn clear(&mut self)
        ensures
            final(self).wf(),
            final(self)@ == Seq::<(u64, PendingView)>::empty(),
    {
        self.entries = Vec::new();
        proof {
            assert(self@ =~= Seq::<(u64, PendingView)>::empty());
        }
    }

    /// Drops the predictions with a cell on row `row` at or right of `col`,
    /// clearing them from the renderer in order; their sequence numbers are
    /// returned.
    pub fn drop_predictions_reaching(&mut self, renderer: &mut GridRenderer, row: usize, col: usize) -> (res: Vec<u64>)
        requires
            old(self).wf(),
            old(renderer).wf(),
        ensures
            final(self).wf(),
            final(renderer).wf(),
            final(self)@ == entries_kept(old(self)@, row, col),
            res@ == seqs_dropped(old(self)@, row, col),
            final(renderer)@ == clear_seqs(old(renderer)@, res@),
    {
        let ghost old_view = self@;
        let ghost v0 = renderer@;
        let n = self.entries.len();
        let mut kept: Vec<(u64, PendingPrediction)> = Vec::new();
        let mut dropped: Vec<u64> = Vec::new();
        let mut entries = Vec::new();
        std::mem::swap(&mut entries, &mut self.entries);
        let mut i: usize = 0;
        while i < n
            invariant
                n == entries@.len(),
                entries_view(entries@) == old_view,
                self.entries@.len() == 0,
                i <= n,
                renderer.wf(),
                entries_view(kept@) == entries_kept(old_view.take(i as int), row, col),
                dropped@ == seqs_dropped(old_view.take(i as int), row, col),
                renderer@ == clear_seqs(v0, dropped@),
            decreases n - i,
        {
            proof {
                assert(old_view.take(i + 1).drop_last() =~= old_view.take(i as int));
            }
            proof {
                assert(old_view[i as int].1 == entries@[i as int].1@);
            }
            let reaches = reaches_cell(&entries[i].1, row, col);
            let seq = entries[i].0;
            if reaches {
                renderer.clear_prediction_seq(seq);
                dropped.push(seq);
                proof {
                    assert(dropped@.drop_last() =~= seqs_dropped(old_view.take(i as int), row, col));
                }
            } else {
                let e = &entries[i];
                let p = PendingPrediction {
                    positions: copy_positions(&e.1.positions),
                    sent_at: e.1.sent_at,
                    acked_at: e.1.acked_at,
                    cursor_row: e.1.cursor_row,
                    cursor_col: e.1.cursor_col,
                };
                kept.push((seq, p));
                proof {
                    assert(entries_view(kept@) =~= entries_view(kept@).drop_last().push(old_view[i as int]));
                }
            }
            i = i + 1;
        }
        proof {
            assert(old_view.take(n as int) =~= old_view);
            lemma_kept_sorted(old_view, row, col);
        }
        self.entries = kept;
        dropped
    }

    /// Tries to clear the prediction of input `seq` (see `spec_try_clear`);
    /// `ack_expired` says whether its acknowledgement is older than the
    /// grace period.
    pub fn try_clear_prediction(&mut self, renderer: &mut GridRenderer, seq: u64, ack_expired: bool) -> (res: bool)
        requires
            old(self).wf(),
            old(renderer).wf(),
        ensures
            final(self).wf(),
            final(renderer).wf(),
            (final(self)@, final(renderer)@, res) == spec_try_clear(old(self)@, old(renderer)@, seq, ack_expired),
    {
        match self.index_of(seq) {
            None => {
                proof {
                    lemma_position_of_none(self@, seq);
                }
                false
            },
            Some(i) => {
                proof {
                    lemma_position_of(self@, seq, i as int);
                }
                let gone = overlay_absent(&self.entries[i].1, renderer, seq);
                let matches = text_matches(&self.entries[i].1, renderer);
                if gone || matches || ack_expired {
                    proof {
                        lemma_view_remove(self.entries@, i as int);
                        let t = self@.remove(i as int);
                        assert forall|a: int, b: int| 0 <= a < b < t.len() implies (#[trigger] t[a]).0 < (#[trigger] t[b]).0 by {
                            let a2 = if a < i { a } else { a + 1 };
                            let b2 = if b < i { b } else { b + 1 };
                            assert(t[a] == self@[a2] && t[b] == self@[b2]);
                        }
                    }
                    self.entries.remove(i);
                    renderer.clear_prediction_seq(seq);
                    true
                } else {
                    false
                }
            },
        }
    }

    /// Whether some prediction has a cell on row `row` at or right of
    /// `col`.
    fn any_reaching(&self, row: usize, col: usize) -> (res: bool)
        ensures
            res == any_reaches(self@, row, col),
    {
        let n = self.entries.len();
        let mut i: usize = 0;
        while i < n
            invariant
                n == self.entries@.len(),
                n == self@.len(),
                i <= n,
                forall|k: int| 0 <= k < i ==> !reaches_from((#[trigger] self@[k]).1, row, col),
            decreases n - i,
        {
            proof {
                assert(self@[i as int].1 == self.entries@[i as int].1@);
            }
            if reaches_cell(&self.entries[i].1, row, col) {
                return true;
            }
            i = i + 1;
        }
        false
    }

    /// Whether row `row` shows or awaits a prediction.
    pub fn row_has_predictions(&self, renderer: &GridRenderer, row: usize) -> (res: bool)
        requires
            renderer.wf(),
        ensures
            res == spec_row_has_predictions(self@, renderer@, row),
    {
        if renderer.predicted_row_width(row as u64) > 0 {
            return true;
        }
        self.any_reaching(row, 0)
    }

    /// Discards the predictions on row `row` from column `col` on (see
    /// `spec_discard_from_column`).
    pub fn discard_predictions_from_column(&mut self, renderer: &mut GridRenderer, row: usize, col: usize) -> (res: (
        bool,
        bool,
    ))
        requires
            old(self).wf(),
            old(renderer).wf(),
        ensures
            final(self).wf(),
            final(renderer).wf(),
            (final(self)@, final(renderer)@, res.0, res.1) == spec_discard_from_column(
                old(self)@,
                old(renderer)@,
                row,
                col,
            ),
    {
        let predicted_before = renderer.predicted_row_width(row as u64);
        let beyond = self.any_reaching(row, col);
        if predicted_before <= col && !beyond {
            return (false, false);
        }
        let dropped = self.drop_predictions_reaching(renderer, row, col);
        if dropped.len() == 0 {
            return (false, false);
        }
        let changed = renderer.shrink_row_to_column(row as u64, col);
        (true, changed)
    }

    /// Drops every prediction, clearing each from the renderer in order;
    /// their sequence numbers are returned.
    pub fn drop_all_predictions(&mut self, renderer: &mut GridRenderer) -> (res: Vec<u64>)
        requires
            old(self).wf(),
            old(renderer).wf(),
        ensures
            final(self).wf(),
            final(renderer).wf(),
            final(self)@ == Seq::<(u64, PendingView)>::empty(),
            res@ == seqs_of(old(self)@),
            final(renderer)@ == clear_seqs(old(renderer)@, res@),
    {
        let ghost old_view = self@;
        let ghost v0 = renderer@;
        let n = self.entries.len();
        let mut seqs: Vec<u64> = Vec::new();
        let mut i: usize = 0;
        while i < n
            invariant
                n == self.entries@.len(),
                self@ == old_view,
                i <= n,
                renderer.wf(),
                seqs@ == seqs_of(old_view.take(i as int)),
                renderer@ == clear_seqs(v0, seqs@),
            decreases n - i,
        {
            let seq = self.entries[i].0;
            renderer.clear_prediction_seq(seq);
            seqs.push(seq);
            proof {
                assert(seqs@ =~= seqs_of(old_view.take(i + 1)));
                assert(seqs@.drop_last() =~= seqs_of(old_view.take(i as int)));
            }
            i = i + 1;
        }
        proof {
            assert(old_view.take(n as int) =~= old_view);
        }
        self.entries = Vec::new();
        proof {
            assert(self@ =~= Seq::<(u64, PendingView)>::empty());
        }
        seqs
    }

    /// The prediction waiting for input `seq`, if any.
    pub fn get(&self, seq: u64) -> (res: Option<&PendingPrediction>)
        requires
            self.wf(),
        ensures
            match res {
                Some(p) => position_of(self@, seq) matches Some(i) && p@ == self@[i].1,
                None => !has_seq(self@, seq),
            },
    {
        match self.index_of(seq) {
            Some(i) => {
                proof {
                    lemma_position_of(self@, seq, i as int);
                }
                Some(&self.entries[i].1)
            },
            None => None,
        }
    }
}

} // verus!

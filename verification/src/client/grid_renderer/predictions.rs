//! Predicted cells: characters typed locally and drawn before the host
//! echoes them, keyed by absolute row and column.

use vstd::prelude::*;

use super::{spec_clear_prediction, GridRenderer, PredictedCell, RendererView};
use crate::assoc::{
    assoc_map, has_key, keys_unique, lemma_assoc_finite, lemma_assoc_index, lemma_assoc_prefix, lemma_assoc_push,
    lemma_assoc_remove, lemma_assoc_update,
};

verus! {

/// Which predictions a pruning keeps.
#[derive(Clone, Copy, Debug)]
pub enum PredictionFilter {
    /// Those on rows from the given one on.
    FromRow(u64),
    /// Those not on the given row at or right of the given column.
    NotOnRowFrom(u64, usize),
    /// Those not made by input with the given sequence number.
    NotSeq(u64),
}

/// Whether `filter` keeps the prediction `cell` at `key`.
pub open spec fn filter_keeps(filter: PredictionFilter, key: (u64, usize), cell: PredictedCell) -> bool {
    match filter {
        PredictionFilter::FromRow(row) => key.0 >= row,
        PredictionFilter::NotOnRowFrom(row, col) => !(key.0 == row && key.1 >= col),
        PredictionFilter::NotSeq(seq) => cell.seq != seq,
    }
}

/// The predictions that `filter` keeps.
pub open spec fn filtered(
    preds: Map<(u64, usize), PredictedCell>,
    filter: PredictionFilter,
) -> Map<(u64, usize), PredictedCell> {
    Map::new(
        |k: (u64, usize)| preds.contains_key(k) && filter_keeps(filter, k, preds[k]),
        |k: (u64, usize)| preds[k],
    )
}

/// Whether `filter` drops some prediction.
pub open spec fn filter_drops_some(preds: Map<(u64, usize), PredictedCell>, filter: PredictionFilter) -> bool {
    exists|k: (u64, usize)| preds.contains_key(k) && !filter_keeps(filter, k, #[trigger] preds[k])
}

/// Whether some prediction lies on absolute row `row`.
pub open spec fn has_prediction_on_row(preds: Map<(u64, usize), PredictedCell>, row: u64) -> bool {
    exists|k: (u64, usize)| #[trigger] preds.contains_key(k) && k.0 == row
}

/// Whether `w` is the largest cell end among the predictions on absolute
/// row `row`.
pub open spec fn is_widest_prediction(preds: Map<(u64, usize), PredictedCell>, row: u64, w: nat) -> bool {
    &&& exists|k: (u64, usize)| #[trigger] preds.contains_key(k) && k.0 == row && col_end(k.1) == w
    &&& forall|k: (u64, usize)| #[trigger] preds.contains_key(k) && k.0 == row ==> col_end(k.1) <= w
}

/// One past the rightmost predicted column of absolute row `row`
/// (saturating), 0 when it has none.
pub open spec fn spec_predicted_row_width(preds: Map<(u64, usize), PredictedCell>, row: u64) -> nat {
    if has_prediction_on_row(preds, row) {
        choose|w: nat| is_widest_prediction(preds, row, w)
    } else {
        0
    }
}

/// The largest cell end is unique.
pub proof fn lemma_widest_unique(preds: Map<(u64, usize), PredictedCell>, row: u64, w: nat)
    requires
        is_widest_prediction(preds, row, w),
    ensures
        has_prediction_on_row(preds, row),
        spec_predicted_row_width(preds, row) == w,
{
    let k = choose|k: (u64, usize)| #[trigger] preds.contains_key(k) && k.0 == row && col_end(k.1) == w;
    assert(preds.contains_key(k) && k.0 == row);
    let c = choose|w: nat| is_widest_prediction(preds, row, w);
    let kc = choose|k: (u64, usize)| #[trigger] preds.contains_key(k) && k.0 == row && col_end(k.1) == c;
    assert(col_end(kc.1) <= w);
    assert(col_end(k.1) <= c);
}

/// `col + 1`, saturating.
pub open spec fn col_end(col: usize) -> nat {
    if col < usize::MAX {
        (col + 1) as nat
    } else {
        usize::MAX as nat
    }
}

fn keeps(filter: PredictionFilter, key: (u64, usize), cell: PredictedCell) -> (res: bool)
    ensures
        res == filter_keeps(filter, key, cell),
{
    match filter {
        PredictionFilter::FromRow(row) => key.0 >= row,
        PredictionFilter::NotOnRowFrom(row, col) => !(key.0 == row && key.1 >= col),
        PredictionFilter::NotSeq(seq) => cell.seq != seq,
    }
}

impl GridRenderer {
    /// The index in the prediction list of `key`, if present.
    pub(super) fn find_prediction(&self, key: (u64, usize)) -> (res: Option<usize>)
        requires
            self.wf(),
        ensures
            res matches Some(i) ==> i < self.predictions@.len() && self.predictions@[i as int].0 == key
                && self@.predictions.contains_key(key) && self@.predictions[key] == self.predictions@[i as int].1,
            res is None ==> !has_key(self.predictions@, key),
            res is None <==> !self@.predictions.contains_key(key),
    {
        let n = self.predictions.len();
        let mut i: usize = 0;
        while i < n
            invariant
                self.wf(),
                n == self.predictions@.len(),
                i <= n,
                forall|j: int| 0 <= j < i ==> self.predictions@[j].0 != key,
            decreases n - i,
        {
            let entry_key = self.predictions[i].0;
            if entry_key.0 == key.0 && entry_key.1 == key.1 {
                proof {
                    lemma_assoc_index(self.predictions@, i as int);
                }
                return Some(i);
            }
            i = i + 1;
        }
        None
    }

    /// Removes the prediction at (`row`, `col`), marking the renderer dirty
    /// if there was one.
    pub(super) fn clear_prediction_at(&mut self, row: usize, col: usize)
        requires
            old(self).wf(),
        ensures
            final(self).wf(),
            final(self)@ == spec_clear_prediction(old(self)@, (row as u64, col)),
    {
        let key = (row as u64, col);
        match self.find_prediction(key) {
            Some(i) => {
                let ghost before = self.predictions@;
                self.predictions.remove(i);
                proof {
                    lemma_assoc_remove(before, i as int);
                    lemma_assoc_finite(self.predictions@);
                }
                self.needs_redraw = true;
            },
            None => {},
        }
    }

    /// Keeps the predictions `filter` keeps; returns whether any was dropped.
    pub(super) fn retain_predictions(&mut self, filter: PredictionFilter) -> (res: bool)
        requires
            old(self).wf(),
        ensures
            final(self).wf(),
            final(self)@ == (RendererView { predictions: filtered(old(self)@.predictions, filter), ..old(self)@ }),
            res == filter_drops_some(old(self)@.predictions, filter),
    {
        let ghost v0 = self@;
        let ghost preds = self.predictions@;
        let n = self.predictions.len();
        let mut kept: Vec<((u64, usize), PredictedCell)> = Vec::new();
        let mut dropped = false;
        let mut i: usize = 0;
        proof {
            crate::assoc::lemma_assoc_empty::<(u64, usize), PredictedCell>();
            assert(preds.take(0) =~= Seq::<((u64, usize), PredictedCell)>::empty());
            assert(assoc_map(kept@) =~= filtered(assoc_map(preds.take(0)), filter));
        }
        while i < n
            invariant
                self.wf(),
                self@ == v0,
                self.predictions@ == preds,
                n == preds.len(),
                i <= n,
                keys_unique(kept@),
                forall|a: int| 0 <= a < kept@.len() ==> has_key(preds.take(i as int), (#[trigger] kept@[a]).0),
                assoc_map(kept@) == filtered(assoc_map(preds.take(i as int)), filter),
                dropped == filter_drops_some(assoc_map(preds.take(i as int)), filter),
            decreases n - i,
        {
            let (key, cell) = self.predictions[i];
            proof {
                lemma_assoc_prefix(preds, i as int);
                assert(preds[i as int] == (key, cell));
            }
            let ghost m0 = assoc_map(preds.take(i as int));
            let ghost m1 = assoc_map(preds.take(i + 1));
            if keeps(filter, key, cell) {
                proof {
                    if has_key(kept@, key) {
                        let a = choose|a: int| 0 <= a < kept@.len() && kept@[a].0 == key;
                        assert(has_key(preds.take(i as int), kept@[a].0));
                    }
                    lemma_assoc_push(kept@, key, cell);
                }
                kept.push((key, cell));
                proof {
                    assert(assoc_map(kept@) =~= filtered(m1, filter));
                    assert forall|a: int| 0 <= a < kept@.len() implies has_key(
                        preds.take(i + 1),
                        (#[trigger] kept@[a]).0,
                    ) by {
                        if a < kept@.len() - 1 {
                            assert(has_key(preds.take(i as int), kept@[a].0));
                            let j = choose|j: int| 0 <= j < i && preds.take(i as int)[j].0 == kept@[a].0;
                            assert(preds.take(i + 1)[j] == preds.take(i as int)[j]);
                        } else {
                            assert(preds.take(i + 1)[i as int].0 == key);
                        }
                    }
                    assert(filter_drops_some(m1, filter) == filter_drops_some(m0, filter)) by {
                        if filter_drops_some(m1, filter) {
                            let k = choose|k: (u64, usize)| m1.contains_key(k) && !filter_keeps(filter, k, #[trigger] m1[k]);
                            assert(k != key);
                            assert(m0.contains_key(k) && m0[k] == m1[k]);
                        }
                        if filter_drops_some(m0, filter) {
                            let k = choose|k: (u64, usize)| m0.contains_key(k) && !filter_keeps(filter, k, #[trigger] m0[k]);
                            assert(m1.contains_key(k) && m0[k] == m1[k]);
                        }
                    }
                }
            } else {
                dropped = true;
                proof {
                    assert(assoc_map(kept@) =~= filtered(m1, filter));
                    assert forall|a: int| 0 <= a < kept@.len() implies has_key(
                        preds.take(i + 1),
                        (#[trigger] kept@[a]).0,
                    ) by {
                        assert(has_key(preds.take(i as int), kept@[a].0));
                        let j = choose|j: int| 0 <= j < i && preds.take(i as int)[j].0 == kept@[a].0;
                        assert(preds.take(i + 1)[j] == preds.take(i as int)[j]);
                    }
                    assert(m1.contains_key(key) && !filter_keeps(filter, key, m1[key]));
                }
            }
            i = i + 1;
        }
        proof {
            assert(preds.take(n as int) =~= preds);
            lemma_assoc_finite(kept@);
        }
        self.predictions = kept;
        dropped
    }

    /// Shows `ch` at (`row`, `col`) as predicted by input `seq`, replacing a
    /// prediction already there.
    pub fn add_prediction(&mut self, row: usize, col: usize, seq: u64, ch: char)
        requires
            old(self).wf(),
        ensures
            final(self).wf(),
            final(self)@ == (RendererView {
                predictions: old(self)@.predictions.insert((row as u64, col), PredictedCell { ch, seq }),
                needs_redraw: true,
                ..old(self)@
            }),
    {
        let key = (row as u64, col);
        let cell = PredictedCell { ch, seq };
        let ghost before = self.predictions@;
        match self.find_prediction(key) {
            Some(i) => {
                self.predictions.set(i, (key, cell));
                proof {
                    lemma_assoc_update(before, i as int, cell);
                }
            },
            None => {
                self.predictions.push((key, cell));
                proof {
                    lemma_assoc_push(before, key, cell);
                }
            },
        }
        proof {
            lemma_assoc_finite(self.predictions@);
        }
        self.needs_redraw = true;
    }

    /// Shows or hides predictions.
    pub fn set_predictions_visible(&mut self, visible: bool)
        requires
            old(self).wf(),
        ensures
            final(self).wf(),
            final(self)@ == (RendererView {
                predictions_visible: visible,
                needs_redraw: old(self)@.needs_redraw || old(self)@.predictions_visible != visible,
                ..old(self)@
            }),
    {
        if self.predictions_visible != visible {
            self.predictions_visible = visible;
            self.needs_redraw = true;
        }
    }

    /// Underlines predictions, or not.
    pub fn set_prediction_flagging(&mut self, underline: bool)
        requires
            old(self).wf(),
        ensures
            final(self).wf(),
            final(self)@ == (RendererView {
                prediction_flagging: underline,
                needs_redraw: old(self)@.needs_redraw || old(self)@.prediction_flagging != underline,
                ..old(self)@
            }),
    {
        if self.prediction_flagging != underline {
            self.prediction_flagging = underline;
            self.needs_redraw = true;
        }
    }

    /// Whether any prediction is shown.
    pub fn has_active_predictions(&self) -> (res: bool)
        requires
            self.wf(),
        ensures
            res == !self@.predictions.is_empty(),
    {
        let res = self.predictions.len() > 0;
        proof {
            if res {
                lemma_assoc_index(self.predictions@, 0);
            } else {
                assert(self.predictions@ =~= Seq::<((u64, usize), PredictedCell)>::empty());
                crate::assoc::lemma_assoc_empty::<(u64, usize), PredictedCell>();
            }
            assert(res == !self@.predictions.is_empty()) by {
                if !res {
                    assert(self@.predictions.dom() =~= Set::empty());
                } else {
                    assert(self@.predictions.dom().contains(self.predictions@[0].0));
                }
            }
        }
        res
    }

    /// Whether input `seq` predicted the cell at (`row`, `col`).
    pub fn prediction_exists(&self, row: usize, col: usize, seq: u64) -> (res: bool)
        requires
            self.wf(),
        ensures
            res == (self@.predictions.contains_key((row as u64, col)) && self@.predictions[(row as u64, col)].seq
                == seq),
    {
        match self.find_prediction((row as u64, col)) {
            Some(i) => self.predictions[i].1.seq == seq,
            None => false,
        }
    }

    /// Whether input `seq` predicted any cell shown.
    pub fn seq_has_predictions(&self, seq: u64) -> (res: bool)
        requires
            self.wf(),
        ensures
            res == exists|k: (u64, usize)| #[trigger] self@.predictions.contains_key(k) && self@.predictions[k].seq
                == seq,
    {
        let n = self.predictions.len();
        let mut i: usize = 0;
        while i < n
            invariant
                self.wf(),
                n == self.predictions@.len(),
                i <= n,
                forall|j: int| 0 <= j < i ==> (#[trigger] self.predictions@[j]).1.seq != seq,
            decreases n - i,
        {
            if self.predictions[i].1.seq == seq {
                proof {
                    lemma_assoc_index(self.predictions@, i as int);
                }
                return true;
            }
            i = i + 1;
        }
        proof {
            assert forall|k: (u64, usize)| #[trigger] self@.predictions.contains_key(k) implies self@.predictions[k].seq
                != seq by {
                let j = choose|j: int| 0 <= j < self.predictions@.len() && self.predictions@[j].0 == k;
                lemma_assoc_index(self.predictions@, j);
            }
        }
        false
    }

    /// One past the rightmost predicted column of absolute row
    /// `absolute_row` (saturating), 0 when it has none.
    pub fn predicted_row_width(&self, absolute_row: u64) -> (res: usize)
        requires
            self.wf(),
        ensures
            !has_prediction_on_row(self@.predictions, absolute_row) ==> res == 0,
            has_prediction_on_row(self@.predictions, absolute_row) ==> {
                &&& exists|k: (u64, usize)| #[trigger] self@.predictions.contains_key(k) && k.0 == absolute_row
                    && col_end(k.1) == res
                &&& forall|k: (u64, usize)| #[trigger] self@.predictions.contains_key(k) && k.0 == absolute_row
                    ==> col_end(k.1) <= res
            },
            res == spec_predicted_row_width(self@.predictions, absolute_row),
    {
        let n = self.predictions.len();
        let mut best: usize = 0;
        let mut found = false;
        let mut i: usize = 0;
        while i < n
            invariant
                self.wf(),
                n == self.predictions@.len(),
                i <= n,
                found == exists|j: int| 0 <= j < i && (#[trigger] self.predictions@[j]).0.0 == absolute_row,
                !found ==> best == 0,
                found ==> exists|j: int| 0 <= j < i && (#[trigger] self.predictions@[j]).0.0 == absolute_row
                    && col_end(self.predictions@[j].0.1) == best,
                forall|j: int| 0 <= j < i && (#[trigger] self.predictions@[j]).0.0 == absolute_row ==> col_end(
                    self.predictions@[j].0.1,
                ) <= best,
            decreases n - i,
        {
            let key = self.predictions[i].0;
            if key.0 == absolute_row {
                let end = key.1.saturating_add(1);
                if !found || end > best {
                    best = end;
                }
                found = true;
            }
            i = i + 1;
        }
        proof {
            let p = self.predictions@;
            if has_prediction_on_row(self@.predictions, absolute_row) {
                let k = choose|k: (u64, usize)| #[trigger] self@.predictions.contains_key(k) && k.0 == absolute_row;
                let j = choose|j: int| 0 <= j < p.len() && p[j].0 == k;
                assert(p[j].0.0 == absolute_row);
                let j2 = choose|j: int| 0 <= j < n && (#[trigger] p[j]).0.0 == absolute_row && col_end(p[j].0.1) == best;
                lemma_assoc_index(p, j2);
                assert forall|k: (u64, usize)| #[trigger] self@.predictions.contains_key(k) && k.0 == absolute_row implies col_end(k.1) <= best by {
                    let j3 = choose|j: int| 0 <= j < p.len() && p[j].0 == k;
                }
                assert(self@.predictions.contains_key(p[j2].0));
                lemma_widest_unique(self@.predictions, absolute_row, best as nat);
            } else if found {
                let j = choose|j: int| 0 <= j < n && (#[trigger] p[j]).0.0 == absolute_row;
                lemma_assoc_index(p, j);
            }
        }
        best
    }

    /// Drops the prediction input `seq` made; marks the renderer dirty if
    /// there was any.
    pub fn clear_prediction_seq(&mut self, seq: u64)
        requires
            old(self).wf(),
        ensures
            final(self).wf(),
            final(self)@ == (RendererView {
                predictions: filtered(old(self)@.predictions, PredictionFilter::NotSeq(seq)),
                needs_redraw: old(self)@.needs_redraw || filter_drops_some(
                    old(self)@.predictions,
                    PredictionFilter::NotSeq(seq),
                ),
                ..old(self)@
            }),
    {
        let dropped = self.retain_predictions(PredictionFilter::NotSeq(seq));
        if dropped {
            self.needs_redraw = true;
        }
    }

    /// Drops every prediction; marks the renderer dirty if there was any.
    pub fn clear_all_predictions(&mut self)
        requires
            old(self).wf(),
        ensures
            final(self).wf(),
            final(self)@ == (RendererView {
                predictions: Map::empty(),
                needs_redraw: old(self)@.needs_redraw || !old(self)@.predictions.is_empty(),
                ..old(self)@
            }),
    {
        if self.has_active_predictions() {
            self.predictions = Vec::new();
            self.needs_redraw = true;
            proof {
                crate::assoc::lemma_assoc_empty::<(u64, usize), PredictedCell>();
                assert(self.predictions@ =~= Seq::<((u64, usize), PredictedCell)>::empty());
            }
        } else {
            proof {
                assert(self@.predictions =~= Map::<(u64, usize), PredictedCell>::empty());
            }
        }
    }

    /// Splits the predictions into those off row `row_key`, as they are, and
    /// those on it, moved left by `delta` columns, in list order.
    fn partition_row(&self, row_key: u64, delta: usize) -> (res: (
        Vec<((u64, usize), PredictedCell)>,
        Vec<((u64, usize), PredictedCell)>,
    ))
        requires
            self.wf(),
        ensures
            keys_unique(res.0@),
            assoc_map(res.0@) == filtered(self@.predictions, PredictionFilter::NotOnRowFrom(row_key, 0)),
            res.1@ == row_moves(self.predictions@, row_key, delta, self.predictions@.len() as int),
    {
        let ghost preds = self.predictions@;
        let n = self.predictions.len();
        let mut others: Vec<((u64, usize), PredictedCell)> = Vec::new();
        let mut moved: Vec<((u64, usize), PredictedCell)> = Vec::new();
        let mut i: usize = 0;
        proof {
            crate::assoc::lemma_assoc_empty::<(u64, usize), PredictedCell>();
            assert(preds.take(0) =~= Seq::<((u64, usize), PredictedCell)>::empty());
            assert(assoc_map(others@) =~= filtered(assoc_map(preds.take(0)), PredictionFilter::NotOnRowFrom(row_key, 0)));
        }
        while i < n
            invariant
                self.wf(),
                self.predictions@ == preds,
                n == preds.len(),
                i <= n,
                keys_unique(others@),
                forall|a: int| 0 <= a < others@.len() ==> has_key(preds.take(i as int), (#[trigger] others@[a]).0),
                assoc_map(others@) == filtered(assoc_map(preds.take(i as int)), PredictionFilter::NotOnRowFrom(row_key, 0)),
                moved@ == row_moves(preds, row_key, delta, i as int),
            decreases n - i,
        {
            let (key, cell) = self.predictions[i];
            proof {
                lemma_assoc_prefix(preds, i as int);
                assert(preds[i as int] == (key, cell));
            }
            let ghost t1 = assoc_map(preds.take(i + 1));
            if key.0 == row_key {
                let new_col = if key.1 >= delta {
                    key.1 - delta
                } else {
                    0
                };
                moved.push(((row_key, new_col), cell));
                proof {
                    assert(assoc_map(others@) =~= filtered(t1, PredictionFilter::NotOnRowFrom(row_key, 0)));
                    assert forall|a: int| 0 <= a < others@.len() implies has_key(preds.take(i + 1), (#[trigger] others@[a]).0) by {
                        let j = choose|j: int| 0 <= j < i && preds.take(i as int)[j].0 == others@[a].0;
                        assert(preds.take(i + 1)[j] == preds.take(i as int)[j]);
                    }
                }
            } else {
                proof {
                    if has_key(others@, key) {
                        let a = choose|a: int| 0 <= a < others@.len() && others@[a].0 == key;
                        assert(has_key(preds.take(i as int), others@[a].0));
                    }
                    lemma_assoc_push(others@, key, cell);
                }
                others.push((key, cell));
                proof {
                    assert(assoc_map(others@) =~= filtered(t1, PredictionFilter::NotOnRowFrom(row_key, 0)));
                    assert forall|a: int| 0 <= a < others@.len() implies has_key(preds.take(i + 1), (#[trigger] others@[a]).0) by {
                        if a < others@.len() - 1 {
                            let j = choose|j: int| 0 <= j < i && preds.take(i as int)[j].0 == others@[a].0;
                            assert(preds.take(i + 1)[j] == preds.take(i as int)[j]);
                        } else {
                            assert(preds.take(i + 1)[i as int].0 == key);
                        }
                    }
                }
            }
            i = i + 1;
        }
        proof {
            assert(preds.take(n as int) =~= preds);
        }
        (others, moved)
    }

    /// Moves every prediction on row `row` left by `delta` columns (to
    /// column 0 at most); returns whether there was any to move. Where two
    /// land on one column, one of them stays.
    pub fn shift_predictions_left(&mut self, row: usize, delta: usize) -> (res: bool)
        requires
            old(self).wf(),
        ensures
            final(self).wf(),
            res == (delta > 0 && has_prediction_on_row(old(self)@.predictions, row as u64)),
            final(self)@ == (RendererView {
                predictions: final(self)@.predictions,
                needs_redraw: old(self)@.needs_redraw || res,
                ..old(self)@
            }),
            !res ==> final(self)@.predictions == old(self)@.predictions,
            forall|k: (u64, usize)|
                k.0 != row as u64 ==> (#[trigger] final(self)@.predictions.contains_key(k) == old(self)@.predictions.contains_key(k)
                    && (old(self)@.predictions.contains_key(k) ==> final(self)@.predictions[k] == old(self)@.predictions[k])),
            forall|k: (u64, usize)|
                #![trigger final(self)@.predictions.contains_key(k)]
                final(self)@.predictions.contains_key(k) && k.0 == row as u64 ==> exists|k2: (u64, usize)|
                    #[trigger] old(self)@.predictions.contains_key(k2) && k2.0 == row as u64 && shifted_col(k2.1, delta) == k.1
                        && final(self)@.predictions[k] == old(self)@.predictions[k2],
            forall|k2: (u64, usize)|
                #[trigger] old(self)@.predictions.contains_key(k2) && k2.0 == row as u64 && delta > 0
                    ==> final(self)@.predictions.contains_key((row as u64, shifted_col(k2.1, delta))),
    {
        let ghost v0 = self@;
        let ghost m0 = v0.predictions;
        let ghost preds = self.predictions@;
        if delta == 0 {
            proof {
                assert forall|k: (u64, usize)|
                    #![trigger self@.predictions.contains_key(k)]
                    self@.predictions.contains_key(k) && k.0 == row as u64 implies exists|k2: (u64, usize)|
                        #[trigger] m0.contains_key(k2) && k2.0 == row as u64 && shifted_col(k2.1, delta) == k.1
                            && self@.predictions[k] == m0[k2] by {
                    assert(m0.contains_key(k) && shifted_col(k.1, delta) == k.1);
                }
            }
            return false;
        }
        let row_key = row as u64;
        let n = self.predictions.len();
        let (others, moved) = self.partition_row(row_key, delta);
        proof {
            lemma_shift_result(preds, assoc_map(others@), row_key, delta);
        }
        if moved.len() == 0 {
            proof {
                assert forall|k: (u64, usize)|
                    #![trigger self@.predictions.contains_key(k)]
                    self@.predictions.contains_key(k) && k.0 == row as u64 implies exists|k2: (u64, usize)|
                        #[trigger] m0.contains_key(k2) && k2.0 == row as u64 && shifted_col(k2.1, delta) == k.1
                            && self@.predictions[k] == m0[k2] by {
                    assert(has_prediction_on_row(m0, row_key));
                }
            }
            return false;
        }
        let ghost base_map = assoc_map(others@);
        let m = moved.len();
        let mut result = others;
        let mut a: usize = 0;
        while a < m
            invariant
                m == moved@.len(),
                a <= m,
                keys_unique(result@),
                assoc_map(result@) == insert_all(base_map, moved@, a as int),
            decreases m - a,
        {
            let (key, cell) = moved[a];
            pred_insert(&mut result, key, cell);
            proof {
                assert(moved@[a as int] == (key, cell));
            }
            a = a + 1;
        }
        proof {
            lemma_assoc_finite(result@);
        }
        self.predictions = result;
        self.needs_redraw = true;
        true
    }
}

/// The predictions among the first `i` of a list that lie on row `row`,
/// moved left by `delta` columns, in order.
pub open spec fn row_moves(
    preds: Seq<((u64, usize), PredictedCell)>,
    row: u64,
    delta: usize,
    i: int,
) -> Seq<((u64, usize), PredictedCell)>
    decreases i,
{
    if i <= 0 {
        Seq::empty()
    } else {
        let p = row_moves(preds, row, delta, i - 1);
        let e = preds[i - 1];
        if e.0.0 == row {
            p.push(((row, shifted_col(e.0.1, delta)), e.1))
        } else {
            p
        }
    }
}

/// Each moved prediction lies on the row and comes from one there.
proof fn lemma_row_moves_sources(preds: Seq<((u64, usize), PredictedCell)>, row: u64, delta: usize, i: int)
    requires
        0 <= i <= preds.len(),
    ensures
        forall|a: int| 0 <= a < row_moves(preds, row, delta, i).len() ==> (#[trigger] row_moves(preds, row, delta, i)[a]).0.0 == row
            && exists|j: int|
            0 <= j < i && preds[j].0.0 == row && shifted_col(preds[j].0.1, delta) == row_moves(preds, row, delta, i)[a].0.1
                && row_moves(preds, row, delta, i)[a].1 == preds[j].1,
    decreases i,
{
    if i > 0 {
        lemma_row_moves_sources(preds, row, delta, i - 1);
        let p = row_moves(preds, row, delta, i - 1);
        let cur = row_moves(preds, row, delta, i);
        let e = preds[i - 1];
        assert forall|a: int| 0 <= a < cur.len() implies (#[trigger] cur[a]).0.0 == row && exists|j: int|
            0 <= j < i && preds[j].0.0 == row && shifted_col(preds[j].0.1, delta) == cur[a].0.1 && cur[a].1 == preds[j].1 by {
            if a < p.len() {
                assert(cur[a] == p[a]);
                let j = choose|j: int| 0 <= j < i - 1 && preds[j].0.0 == row && shifted_col(preds[j].0.1, delta) == p[a].0.1
                    && p[a].1 == preds[j].1;
            } else {
                assert(e.0.0 == row);
                assert(cur[a] == ((row, shifted_col(e.0.1, delta)), e.1));
            }
        }
    }
}

/// Each prediction on the row is moved.
proof fn lemma_row_moves_complete(preds: Seq<((u64, usize), PredictedCell)>, row: u64, delta: usize, i: int)
    requires
        0 <= i <= preds.len(),
    ensures
        forall|j: int| 0 <= j < i && (#[trigger] preds[j]).0.0 == row ==> exists|a: int|
            0 <= a < row_moves(preds, row, delta, i).len() && row_moves(preds, row, delta, i)[a].0.1 == shifted_col(preds[j].0.1, delta),
    decreases i,
{
    if i > 0 {
        lemma_row_moves_complete(preds, row, delta, i - 1);
        let p = row_moves(preds, row, delta, i - 1);
        let cur = row_moves(preds, row, delta, i);
        assert forall|j: int| 0 <= j < i && (#[trigger] preds[j]).0.0 == row implies exists|a: int|
            0 <= a < cur.len() && cur[a].0.1 == shifted_col(preds[j].0.1, delta) by {
            if j < i - 1 {
                let a = choose|a: int| 0 <= a < p.len() && p[a].0.1 == shifted_col(preds[j].0.1, delta);
                assert(cur[a] == p[a]);
            } else {
                assert(cur[p.len() as int].0.1 == shifted_col(preds[j].0.1, delta));
            }
        }
    }
}

/// Some prediction is moved exactly when one lies on the row.
proof fn lemma_row_moves_nonempty(preds: Seq<((u64, usize), PredictedCell)>, row: u64, delta: usize, i: int)
    requires
        0 <= i <= preds.len(),
    ensures
        (row_moves(preds, row, delta, i).len() > 0) == exists|j: int| 0 <= j < i && (#[trigger] preds[j]).0.0 == row,
    decreases i,
{
    if i > 0 {
        lemma_row_moves_nonempty(preds, row, delta, i - 1);
        let e = preds[i - 1];
        if e.0.0 != row {
            if exists|j: int| 0 <= j < i && (#[trigger] preds[j]).0.0 == row {
                let j = choose|j: int| 0 <= j < i && (#[trigger] preds[j]).0.0 == row;
                assert(j < i - 1);
            }
        }
    }
}

/// What shifting the predictions of a row leaves, from the list parts.
proof fn lemma_shift_result(
    preds: Seq<((u64, usize), PredictedCell)>,
    base: Map<(u64, usize), PredictedCell>,
    row: u64,
    delta: usize,
)
    requires
        keys_unique(preds),
        base == filtered(assoc_map(preds), PredictionFilter::NotOnRowFrom(row, 0)),
        delta > 0,
    ensures
        ({
            let m0 = assoc_map(preds);
            let moved = row_moves(preds, row, delta, preds.len() as int);
            let fin = insert_all(base, moved, moved.len() as int);
            &&& forall|k: (u64, usize)|
                k.0 != row ==> (#[trigger] fin.contains_key(k) == m0.contains_key(k) && (m0.contains_key(k) ==> fin[k] == m0[k]))
            &&& forall|k: (u64, usize)|
                #![trigger fin.contains_key(k)]
                fin.contains_key(k) && k.0 == row ==> exists|k2: (u64, usize)|
                    #[trigger] m0.contains_key(k2) && k2.0 == row && shifted_col(k2.1, delta) == k.1 && fin[k] == m0[k2]
            &&& forall|k2: (u64, usize)|
                #[trigger] m0.contains_key(k2) && k2.0 == row ==> fin.contains_key((row, shifted_col(k2.1, delta)))
            &&& (moved.len() > 0) == has_prediction_on_row(m0, row)
        }),
{
    let m0 = assoc_map(preds);
    let n = preds.len() as int;
    let moved = row_moves(preds, row, delta, n);
    let fin = insert_all(base, moved, moved.len() as int);
    lemma_row_moves_sources(preds, row, delta, n);
    lemma_row_moves_complete(preds, row, delta, n);
    lemma_row_moves_nonempty(preds, row, delta, n);
    lemma_insert_all(base, moved, moved.len() as int, row);
    assert forall|k: (u64, usize)|
        #![trigger fin.contains_key(k)]
        fin.contains_key(k) && k.0 == row implies exists|k2: (u64, usize)|
            #[trigger] m0.contains_key(k2) && k2.0 == row && shifted_col(k2.1, delta) == k.1 && fin[k] == m0[k2] by {
        let b = choose|b: int| 0 <= b < moved.len() && moved[b].0 == k && fin[k] == moved[b].1;
        let j = choose|j: int|
            0 <= j < n && preds[j].0.0 == row && shifted_col(preds[j].0.1, delta) == moved[b].0.1 && moved[b].1 == preds[j].1;
        lemma_assoc_index(preds, j);
        assert(m0.contains_key(preds[j].0));
    }
    assert forall|k2: (u64, usize)| #[trigger] m0.contains_key(k2) && k2.0 == row implies fin.contains_key(
        (row, shifted_col(k2.1, delta)),
    ) by {
        let j = choose|j: int| 0 <= j < n && preds[j].0 == k2;
        let b = choose|b: int| 0 <= b < moved.len() && moved[b].0.1 == shifted_col(preds[j].0.1, delta);
        assert(moved[b].0 == (row, shifted_col(k2.1, delta)));
    }
    if has_prediction_on_row(m0, row) {
        let k = choose|k: (u64, usize)| #[trigger] m0.contains_key(k) && k.0 == row;
        let j = choose|j: int| 0 <= j < n && preds[j].0 == k;
        assert(preds[j].0.0 == row);
    }
    if moved.len() > 0 {
        let j = choose|j: int| 0 <= j < n && (#[trigger] preds[j]).0.0 == row;
        lemma_assoc_index(preds, j);
        assert(m0.contains_key(preds[j].0));
    }
}

/// The map `m` with the pairs `pairs[0..a]` inserted in order.
pub open spec fn insert_all(
    m: Map<(u64, usize), PredictedCell>,
    pairs: Seq<((u64, usize), PredictedCell)>,
    a: int,
) -> Map<(u64, usize), PredictedCell>
    decreases a,
{
    if a <= 0 {
        m
    } else {
        insert_all(m, pairs, a - 1).insert(pairs[a - 1].0, pairs[a - 1].1)
    }
}

/// Inserting pairs all on row `row` into a map with none there: the other
/// rows keep their entries, every entry on `row` is the value of some pair
/// inserted, and every key inserted is present.
proof fn lemma_insert_all(
    m: Map<(u64, usize), PredictedCell>,
    pairs: Seq<((u64, usize), PredictedCell)>,
    a: int,
    row: u64,
)
    requires
        0 <= a <= pairs.len(),
        forall|b: int| 0 <= b < pairs.len() ==> (#[trigger] pairs[b]).0.0 == row,
        forall|k: (u64, usize)| #[trigger] m.contains_key(k) ==> k.0 != row,
    ensures
        forall|k: (u64, usize)| k.0 != row ==> (#[trigger] insert_all(m, pairs, a).contains_key(k) == m.contains_key(k)
            && (m.contains_key(k) ==> insert_all(m, pairs, a)[k] == m[k])),
        forall|k: (u64, usize)|
            #![trigger insert_all(m, pairs, a).contains_key(k)]
            insert_all(m, pairs, a).contains_key(k) && k.0 == row ==> exists|b: int|
                0 <= b < a && pairs[b].0 == k && insert_all(m, pairs, a)[k] == pairs[b].1,
        forall|b: int| 0 <= b < a ==> insert_all(m, pairs, a).contains_key(#[trigger] pairs[b].0),
    decreases a,
{
    if a > 0 {
        lemma_insert_all(m, pairs, a - 1, row);
        let prev = insert_all(m, pairs, a - 1);
        let cur = insert_all(m, pairs, a);
        let p = pairs[a - 1];
        assert(p.0.0 == row);
        assert forall|k: (u64, usize)|
            #![trigger cur.contains_key(k)]
            cur.contains_key(k) && k.0 == row implies exists|b: int|
                0 <= b < a && pairs[b].0 == k && cur[k] == pairs[b].1 by {
            if k == p.0 {
                assert(pairs[a - 1].0 == k && cur[k] == pairs[a - 1].1);
            } else {
                assert(prev.contains_key(k));
                let b = choose|b: int| 0 <= b < a - 1 && pairs[b].0 == k && prev[k] == pairs[b].1;
            }
        }
        assert forall|b: int| 0 <= b < a implies cur.contains_key(#[trigger] pairs[b].0) by {
            if b < a - 1 {
                assert(prev.contains_key(pairs[b].0));
            }
        }
    }
}

/// Sets the value of `key` in an association list, adding the pair if the
/// key is new.
fn pred_insert(list: &mut Vec<((u64, usize), PredictedCell)>, key: (u64, usize), cell: PredictedCell)
    requires
        keys_unique(old(list)@),
    ensures
        keys_unique(final(list)@),
        assoc_map(final(list)@) == assoc_map(old(list)@).insert(key, cell),
{
    let ghost before = list@;
    let n = list.len();
    let mut j: usize = 0;
    while j < n
        invariant
            list@ == before,
            old(list)@ == before,
            n == before.len(),
            j <= n,
            keys_unique(before),
            forall|x: int| 0 <= x < j ==> before[x].0 != key,
        decreases n - j,
    {
        let k = list[j].0;
        if k.0 == key.0 && k.1 == key.1 {
            proof {
                assert(before[j as int].0 == key);
                lemma_assoc_update(before, j as int, cell);
            }
            list.set(j, (key, cell));
            proof {
                assert(list@ == before.update(j as int, (before[j as int].0, cell)));
            }
            return;
        }
        j = j + 1;
    }
    proof {
        if has_key(before, key) {
            let x = choose|x: int| 0 <= x < before.len() && before[x].0 == key;
        }
        lemma_assoc_push(before, key, cell);
    }
    list.push((key, cell));
}

/// Column `c` moved left by `delta`, stopping at 0.
pub open spec fn shifted_col(c: usize, delta: usize) -> usize {
    if c >= delta {
        (c - delta) as usize
    } else {
        0
    }
}

} // verus!

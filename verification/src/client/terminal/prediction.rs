//! Predicting the echo of typed input: where each byte of an input sends
//! the cursor, which cells show a predicted character, and which cells'
//! earlier predictions a backspace overrides.

use vstd::prelude::*;

use crate::client::grid_renderer::text::{spec_logical_row_width, spec_row_display_width};
use crate::client::grid_renderer::{max_nat, GridRenderer, PredictedCell, RendererView};

verus! {

/// A cell an input predicts, with the character it shows.
#[derive(Clone, Copy, Debug, PartialEq, Eq, Structural)]
pub struct PredictedPosition {
    pub row: usize,
    pub col: usize,
    pub ch: char,
}

/// The prediction of one input.
#[derive(Clone, Debug)]
pub struct PredictionWalk {
    /// The cells predicted, each once, in the order first reached.
    pub positions: Vec<PredictedPosition>,
    pub cursor_row: usize,
    pub cursor_col: usize,
    /// Whether the input moved the cursor or predicted a cell.
    pub cursor_changed: bool,
    /// The cells a backspace moved onto, in order: earlier predictions
    /// covering them are to be dropped.
    pub dropped_cells: Vec<(usize, usize)>,
}

/// The most bytes one input may have to be predicted.
pub const PREDICTION_MAX_BYTES: usize = 32;

/// Past this many buffered predictions the buffer is cleared before the
/// next one.
pub const PREDICTION_BUFFER_LIMIT: usize = 256;

/// Why typed input gets no prediction.
#[derive(Clone, Copy, Debug, PartialEq, Eq, Structural)]
pub enum PredictionSkip {
    /// Nothing is drawn.
    RenderDisabled,
    /// Predictive echo is off.
    PredictiveDisabled,
    /// The input has no bytes.
    EmptyPayload,
    /// The input has more than `PREDICTION_MAX_BYTES` bytes.
    PayloadTooLarge,
}

/// What to do with typed input before predicting its echo.
#[derive(Clone, Copy, Debug, PartialEq, Eq, Structural)]
pub enum PredictionGate {
    /// Make no prediction.
    Skip(PredictionSkip),
    /// Predict it. First clear every buffered prediction (`reset`, the
    /// buffer being over its limit), or drop them all because the host is
    /// about to place the cursor (`flush`).
    Predict { reset: bool, flush: bool },
}

/// What happens to an input of `byte_count` bytes while `pending_count`
/// predictions wait. It is predicted only with rendering and predictive
/// echo on and 1 to `PREDICTION_MAX_BYTES` bytes. More than
/// `PREDICTION_BUFFER_LIMIT` waiting predictions are reset first; otherwise
/// waiting predictions are flushed while a host cursor is pending.
pub open spec fn spec_prediction_gate(
    render_enabled: bool,
    predictive_input: bool,
    byte_count: nat,
    pending_count: nat,
    cursor_authoritative_pending: bool,
) -> PredictionGate {
    if !render_enabled {
        PredictionGate::Skip(PredictionSkip::RenderDisabled)
    } else if !predictive_input {
        PredictionGate::Skip(PredictionSkip::PredictiveDisabled)
    } else if byte_count == 0 {
        PredictionGate::Skip(PredictionSkip::EmptyPayload)
    } else if byte_count > PREDICTION_MAX_BYTES {
        PredictionGate::Skip(PredictionSkip::PayloadTooLarge)
    } else {
        let reset = pending_count > PREDICTION_BUFFER_LIMIT;
        PredictionGate::Predict { reset, flush: !reset && cursor_authoritative_pending && pending_count > 0 }
    }
}

/// Decides what to do with typed input before predicting it (see
/// `spec_prediction_gate`).
pub fn prediction_gate(
    render_enabled: bool,
    predictive_input: bool,
    byte_count: usize,
    pending_count: usize,
    cursor_authoritative_pending: bool,
) -> (res: PredictionGate)
    ensures
        res == spec_prediction_gate(
            render_enabled,
            predictive_input,
            byte_count as nat,
            pending_count as nat,
            cursor_authoritative_pending,
        ),
{
    if !render_enabled {
        PredictionGate::Skip(PredictionSkip::RenderDisabled)
    } else if !predictive_input {
        PredictionGate::Skip(PredictionSkip::PredictiveDisabled)
    } else if byte_count == 0 {
        PredictionGate::Skip(PredictionSkip::EmptyPayload)
    } else if byte_count > PREDICTION_MAX_BYTES {
        PredictionGate::Skip(PredictionSkip::PayloadTooLarge)
    } else {
        let reset = pending_count > PREDICTION_BUFFER_LIMIT;
        PredictionGate::Predict { reset, flush: !reset && cursor_authoritative_pending && pending_count > 0 }
    }
}

/// Whether a walk is kept as a pending prediction: it moved the cursor or
/// predicted a cell; otherwise it is recorded as skipped.
pub fn keep_prediction(walk: &PredictionWalk) -> (res: bool)
    ensures
        res == (walk@.cursor_changed || walk@.positions.len() > 0),
{
    walk.cursor_changed || walk.positions.len() > 0
}

/// Only inputs of 1 to `PREDICTION_MAX_BYTES` bytes are predicted, with
/// drawing and predictive echo on; a reset and a flush never come together,
/// and a flush happens only with predictions buffered.
pub proof fn law_prediction_gate(
    render_enabled: bool,
    predictive_input: bool,
    byte_count: nat,
    pending_count: nat,
    cursor_authoritative_pending: bool,
)
    ensures
        ({
            let g = spec_prediction_gate(render_enabled, predictive_input, byte_count, pending_count, cursor_authoritative_pending);
            &&& (g is Predict <==> (render_enabled && predictive_input && 1 <= byte_count <= PREDICTION_MAX_BYTES))
            &&& (g matches PredictionGate::Predict { reset, flush } ==> !(reset && flush) && (flush ==> pending_count > 0))
        }),
{
}

/// The content of a `PredictionWalk`.
pub struct WalkView {
    pub positions: Seq<PredictedPosition>,
    pub cursor_row: usize,
    pub cursor_col: usize,
    pub cursor_changed: bool,
    pub dropped_cells: Seq<(usize, usize)>,
}

impl View for PredictionWalk {
    type V = WalkView;

    open spec fn view(&self) -> WalkView {
        WalkView {
            positions: self.positions@,
            cursor_row: self.cursor_row,
            cursor_col: self.cursor_col,
            cursor_changed: self.cursor_changed,
            dropped_cells: self.dropped_cells@,
        }
    }
}

/// The first position from index `from` on at (`row`, `col`).
pub open spec fn position_at(ps: Seq<PredictedPosition>, row: usize, col: usize, from: int) -> Option<int>
    decreases ps.len() - from,
{
    if from < 0 || from >= ps.len() {
        None
    } else if ps[from].row == row && ps[from].col == col {
        Some(from)
    } else {
        position_at(ps, row, col, from + 1)
    }
}

/// The positions with `ch` at (`row`, `col`): the position already there
/// takes the new character, else one is added.
pub open spec fn place_position(ps: Seq<PredictedPosition>, row: usize, col: usize, ch: char) -> Seq<PredictedPosition> {
    match position_at(ps, row, col, 0) {
        Some(i) => ps.update(i, PredictedPosition { row, col, ch }),
        None => ps.push(PredictedPosition { row, col, ch }),
    }
}

/// The renderer showing `ch` predicted by `seq` at (`row`, `col`).
pub open spec fn predict_cell(v: RendererView, row: usize, col: usize, seq: u64, ch: char) -> RendererView {
    RendererView {
        predictions: v.predictions.insert((row as u64, col), PredictedCell { ch, seq }),
        needs_redraw: true,
        ..v
    }
}

/// The width of the text committed on absolute row `row`.
pub open spec fn committed_width(v: RendererView, row: int) -> nat {
    max_nat(spec_logical_row_width(v, row), spec_row_display_width(v, row))
}

/// `a + 1`, at most the largest `usize`.
pub open spec fn inc_sat(a: usize) -> usize {
    if a < usize::MAX {
        (a + 1) as usize
    } else {
        a
    }
}

/// The character a byte predicts: the code point of its value.
pub open spec fn byte_char(b: u8) -> char {
    (b as u32) as char
}

/// One byte of input: CR returns to column 0; LF moves to the start of the
/// next row; Backspace and DEL move back a cell (to the end of the text of
/// the row above from column 0), noting the cell for dropping, and predict
/// a blank there when the cursor was ahead of the host's; other control
/// bytes do nothing; any other byte is predicted at the cursor, which moves
/// right.
pub open spec fn walk_step(w: WalkView, v: RendererView, seq: u64, ahead: bool, b: u8) -> (WalkView, RendererView) {
    if b == 0x0Du8 {
        if w.cursor_col != 0 {
            (WalkView { cursor_col: 0, cursor_changed: true, ..w }, v)
        } else {
            (w, v)
        }
    } else if b == 0x0Au8 {
        (WalkView { cursor_row: inc_sat(w.cursor_row), cursor_col: 0, cursor_changed: true, ..w }, v)
    } else if b == 0x08u8 || b == 0x7Fu8 {
        let target: Option<(usize, usize)> = if w.cursor_col > 0 {
            Some((w.cursor_row, (w.cursor_col - 1) as usize))
        } else if w.cursor_row > 0 {
            let r = (w.cursor_row - 1) as usize;
            let width = committed_width(v, r as int);
            Some((r, (if width > 0 { width - 1 } else { 0 }) as usize))
        } else {
            None
        };
        match target {
            Some((r, c)) => {
                let moved = WalkView {
                    cursor_row: r,
                    cursor_col: c,
                    cursor_changed: true,
                    dropped_cells: w.dropped_cells.push((r, c)),
                    ..w
                };
                if ahead {
                    (
                        WalkView { positions: place_position(w.positions, r, c, ' '), ..moved },
                        predict_cell(v, r, c, seq, ' '),
                    )
                } else {
                    (moved, v)
                }
            },
            None => (w, v),
        }
    } else if b < 0x20u8 {
        (w, v)
    } else {
        let ch = byte_char(b);
        (
            WalkView {
                positions: place_position(w.positions, w.cursor_row, w.cursor_col, ch),
                cursor_col: inc_sat(w.cursor_col),
                cursor_changed: true,
                ..w
            },
            predict_cell(v, w.cursor_row, w.cursor_col, seq, ch),
        )
    }
}

/// The walk over `bytes` from the cursor at (`row`, `col`).
pub open spec fn walk_bytes(
    v: RendererView,
    seq: u64,
    row: usize,
    col: usize,
    ahead: bool,
    bytes: Seq<u8>,
) -> (WalkView, RendererView)
    decreases bytes.len(),
{
    if bytes.len() == 0 {
        (
            WalkView {
                positions: Seq::empty(),
                cursor_row: row,
                cursor_col: col,
                cursor_changed: false,
                dropped_cells: Seq::empty(),
            },
            v,
        )
    } else {
        let (w, v1) = walk_bytes(v, seq, row, col, ahead, bytes.drop_last());
        walk_step(w, v1, seq, ahead, bytes.last())
    }
}

/// No two positions are at the same cell.
pub open spec fn cells_unique(ps: Seq<PredictedPosition>) -> bool {
    forall|i: int, j: int|
        0 <= i < j < ps.len() ==> !((#[trigger] ps[i]).row == (#[trigger] ps[j]).row && ps[i].col == ps[j].col)
}

/// Every position is shown on the renderer with its character, as
/// predicted by `seq`.
pub open spec fn positions_shown(ps: Seq<PredictedPosition>, v: RendererView, seq: u64) -> bool {
    forall|i: int|
        0 <= i < ps.len() ==> v.predictions.contains_key(((#[trigger] ps[i]).row as u64, ps[i].col))
            && v.predictions[(ps[i].row as u64, ps[i].col)] == (PredictedCell { ch: ps[i].ch, seq })
}

proof fn lemma_position_at(ps: Seq<PredictedPosition>, row: usize, col: usize, from: int)
    requires
        0 <= from,
    ensures
        position_at(ps, row, col, from) matches Some(i) ==> from <= i < ps.len() && ps[i].row == row && ps[i].col
            == col,
        position_at(ps, row, col, from) is None ==> forall|k: int|
            from <= k < ps.len() ==> !((#[trigger] ps[k]).row == row && ps[k].col == col),
    decreases ps.len() - from,
{
    if from < ps.len() && !(ps[from].row == row && ps[from].col == col) {
        lemma_position_at(ps, row, col, from + 1);
    }
}

proof fn lemma_place_keeps_laws(ps: Seq<PredictedPosition>, v: RendererView, seq: u64, row: usize, col: usize, ch: char)
    requires
        cells_unique(ps),
        positions_shown(ps, v, seq),
    ensures
        cells_unique(place_position(ps, row, col, ch)),
        positions_shown(place_position(ps, row, col, ch), predict_cell(v, row, col, seq, ch), seq),
{
    lemma_position_at(ps, row, col, 0);
    let ps2 = place_position(ps, row, col, ch);
    let v2 = predict_cell(v, row, col, seq, ch);
    assert forall|i: int| 0 <= i < ps2.len() implies v2.predictions.contains_key(((#[trigger] ps2[i]).row as u64, ps2[i].col))
        && v2.predictions[(ps2[i].row as u64, ps2[i].col)] == (PredictedCell { ch: ps2[i].ch, seq }) by {
        if ps2[i].row == row && ps2[i].col == col {
        } else {
            assert(i < ps.len() && ps2[i] == ps[i]);
        }
    }
}

/// Predicting an input keeps each cell once among its positions, and shows
/// every position on the renderer with its character, as predicted by that
/// input.
pub proof fn law_predictions_shown_once(v: RendererView, seq: u64, row: usize, col: usize, ahead: bool, bytes: Seq<u8>)
    ensures
        ({
            let (w, v1) = walk_bytes(v, seq, row, col, ahead, bytes);
            cells_unique(w.positions) && positions_shown(w.positions, v1, seq)
        }),
    decreases bytes.len(),
{
    if bytes.len() > 0 {
        law_predictions_shown_once(v, seq, row, col, ahead, bytes.drop_last());
        let (w, v1) = walk_bytes(v, seq, row, col, ahead, bytes.drop_last());
        let b = bytes.last();
        if b == 0x0Du8 || b == 0x0Au8 {
        } else if b == 0x08u8 || b == 0x7Fu8 {
            if w.cursor_col > 0 {
                lemma_place_keeps_laws(w.positions, v1, seq, w.cursor_row, (w.cursor_col - 1) as usize, ' ');
            } else if w.cursor_row > 0 {
                let r = (w.cursor_row - 1) as usize;
                let width = committed_width(v1, r as int);
                lemma_place_keeps_laws(w.positions, v1, seq, r, (if width > 0 { width - 1 } else { 0 }) as usize, ' ');
            }
        } else if b >= 0x20u8 {
            lemma_place_keeps_laws(w.positions, v1, seq, w.cursor_row, w.cursor_col, byte_char(b));
        }
    }
}

/// The first position at (`row`, `col`), if any.
fn find_position(ps: &Vec<PredictedPosition>, row: usize, col: usize) -> (res: Option<usize>)
    ensures
        match res {
            Some(i) => i < ps@.len() && position_at(ps@, row, col, 0) == Some(i as int),
            None => position_at(ps@, row, col, 0) is None,
        },
{
    let mut i: usize = 0;
    while i < ps.len()
        invariant
            i <= ps@.len(),
            position_at(ps@, row, col, 0) == position_at(ps@, row, col, i as int),
        decreases ps.len() - i,
    {
        if ps[i].row == row && ps[i].col == col {
            return Some(i);
        }
        i = i + 1;
    }
    None
}

/// Records `ch` at (`row`, `col`) among the positions.
fn push_position(ps: &mut Vec<PredictedPosition>, row: usize, col: usize, ch: char)
    ensures
        final(ps)@ == place_position(old(ps)@, row, col, ch),
{
    match find_position(ps, row, col) {
        Some(i) => {
            ps.set(i, PredictedPosition { row, col, ch });
        },
        None => {
            ps.push(PredictedPosition { row, col, ch });
        },
    }
}

/// One byte of input (see `walk_step`).
fn step_byte(walk: &mut PredictionWalk, renderer: &mut GridRenderer, seq: u64, ahead: bool, b: u8)
    requires
        old(renderer).wf(),
    ensures
        final(renderer).wf(),
        (final(walk)@, final(renderer)@) == walk_step(old(walk)@, old(renderer)@, seq, ahead, b),
{
    if b == 0x0D {
        if walk.cursor_col != 0 {
            walk.cursor_col = 0;
            walk.cursor_changed = true;
        }
    } else if b == 0x0A {
        walk.cursor_row = walk.cursor_row.saturating_add(1);
        walk.cursor_col = 0;
        walk.cursor_changed = true;
    } else if b == 0x08 || b == 0x7F {
        let target: Option<(usize, usize)> = if walk.cursor_col > 0 {
            Some((walk.cursor_row, walk.cursor_col - 1))
        } else if walk.cursor_row > 0 {
            let r = walk.cursor_row - 1;
            let width = renderer.committed_row_width(r as u64);
            Some((r, width.saturating_sub(1)))
        } else {
            None
        };
        if let Some((r, c)) = target {
            walk.cursor_row = r;
            walk.cursor_col = c;
            walk.cursor_changed = true;
            walk.dropped_cells.push((r, c));
            if ahead {
                renderer.add_prediction(r, c, seq, ' ');
                push_position(&mut walk.positions, r, c, ' ');
            }
        }
    } else if b < 0x20 {
    } else {
        let ch = b as char;
        let row = walk.cursor_row;
        let col = walk.cursor_col;
        renderer.add_prediction(row, col, seq, ch);
        push_position(&mut walk.positions, row, col, ch);
        walk.cursor_col = col.saturating_add(1);
        walk.cursor_changed = true;
    }
}

/// Predicts the echo of input `seq` (`bytes`) from the cursor at (`row`,
/// `col`), showing each predicted character on the renderer (see
/// `walk_bytes`); `ahead` says whether the cursor is ahead of the host's.
pub fn predict_input(
    renderer: &mut GridRenderer,
    seq: u64,
    row: usize,
    col: usize,
    ahead: bool,
    bytes: &[u8],
) -> (res: PredictionWalk)
    requires
        old(renderer).wf(),
    ensures
        final(renderer).wf(),
        (res@, final(renderer)@) == walk_bytes(old(renderer)@, seq, row, col, ahead, bytes@),
{
    let mut walk = PredictionWalk {
        positions: Vec::new(),
        cursor_row: row,
        cursor_col: col,
        cursor_changed: false,
        dropped_cells: Vec::new(),
    };
    let ghost v0 = renderer@;
    let mut i: usize = 0;
    while i < bytes.len()
        invariant
            renderer.wf(),
            i <= bytes@.len(),
            (walk@, renderer@) == walk_bytes(v0, seq, row, col, ahead, bytes@.take(i as int)),
        decreases bytes.len() - i,
    {
        proof {
            assert(bytes@.take(i + 1).drop_last() =~= bytes@.take(i as int));
        }
        step_byte(&mut walk, renderer, seq, ahead, bytes[i]);
        i = i + 1;
    }
    proof {
        assert(bytes@.take(bytes@.len() as int) =~= bytes@);
    }
    walk
}

} // verus!

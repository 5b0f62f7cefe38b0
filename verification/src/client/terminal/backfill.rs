//! Asking the host for history: which rows the client requests next, given
//! what the renderer holds, the requests still in flight and the ranges the
//! host answered empty.
//!
//! Times are readings of a monotonic clock in milliseconds, supplied by the
//! caller.

use vstd::prelude::*;

use crate::client::grid_renderer::text::{spec_first_gap_between, spec_first_unloaded_range};
use crate::client::terminal::ClientError;
use crate::client::grid_renderer::{spec_mark_row_missing, spec_set_base_row, GridRenderer, RendererView};

verus! {

/// How many rows around the viewport are looked at.
pub const BACKFILL_LOOKAHEAD_ROWS: u64 = 120;

/// The most rows one request asks for.
pub const BACKFILL_MAX_ROWS_PER_REQUEST: u32 = 256;

/// The most requests in flight.
pub const BACKFILL_MAX_PENDING_REQUESTS: usize = 4;

/// The least time between requests, in milliseconds.
pub const BACKFILL_MIN_INTERVAL_MS: u64 = 250;

/// How long a request may stay unanswered, in milliseconds.
pub const BACKFILL_REQUEST_TIMEOUT_MS: u64 = 5000;

/// A history request in flight: rows `start..end`.
#[derive(Clone, Copy, Debug, PartialEq, Eq, Structural)]
pub struct BackfillRequest {
    pub id: u64,
    pub start: u64,
    pub end: u64,
    pub issued_at: u64,
    pub more_expected: bool,
}

/// Rows `start..end` the host answered without content, when that was
/// recorded, the highest loaded row then, and whether a retry was made.
#[derive(Clone, Copy, Debug, PartialEq, Eq, Structural)]
pub struct EmptyTailRange {
    pub start: u64,
    pub end: u64,
    pub recorded_at: u64,
    pub highest_at: Option<u64>,
    pub retry_attempted: bool,
}

/// A request to send: `count` rows from `start`, under `request_id`.
#[derive(Clone, Copy, Debug, PartialEq, Eq, Structural)]
pub struct BackfillOrder {
    pub subscription: u64,
    pub request_id: u64,
    pub start: u64,
    pub count: u32,
}

/// What the client knows about history it has and has asked for.
#[derive(Clone, Debug)]
pub struct Backfill {
    /// The subscription, once the host said hello.
    pub subscription: Option<u64>,
    pub has_loaded_rows: bool,
    pub pending: Vec<BackfillRequest>,
    pub empty_tail_ranges: Vec<EmptyTailRange>,
    pub last_request_at: Option<u64>,
    pub next_request_id: u64,
    pub known_base_row: Option<u64>,
    pub highest_loaded_row: Option<u64>,
    pub last_gap_start: Option<u64>,
    pub last_tail_start: Option<u64>,
    pub handshake_history_rows: u64,
    pub handshake_snapshot_lines: u32,
    /// The sequence number of the last cursor update (0 before any).
    pub cursor_seq: u64,
    /// Whether the last completed answer showed the history trimmed.
    pub last_trimmed: bool,
}

/// The content of a `Backfill`.
pub struct BackfillView {
    pub subscription: Option<u64>,
    pub has_loaded_rows: bool,
    pub pending: Seq<BackfillRequest>,
    pub ranges: Seq<EmptyTailRange>,
    pub last_request_at: Option<u64>,
    pub next_request_id: u64,
    pub known_base_row: Option<u64>,
    pub highest_loaded_row: Option<u64>,
    pub last_gap_start: Option<u64>,
    pub last_tail_start: Option<u64>,
    pub handshake_history_rows: u64,
    pub handshake_snapshot_lines: u32,
    pub cursor_seq: u64,
    pub last_trimmed: bool,
}

impl View for Backfill {
    type V = BackfillView;

    open spec fn view(&self) -> BackfillView {
        BackfillView {
            subscription: self.subscription,
            has_loaded_rows: self.has_loaded_rows,
            pending: self.pending@,
            ranges: self.empty_tail_ranges@,
            last_request_at: self.last_request_at,
            next_request_id: self.next_request_id,
            known_base_row: self.known_base_row,
            highest_loaded_row: self.highest_loaded_row,
            last_gap_start: self.last_gap_start,
            last_tail_start: self.last_tail_start,
            handshake_history_rows: self.handshake_history_rows,
            handshake_snapshot_lines: self.handshake_snapshot_lines,
            cursor_seq: self.cursor_seq,
            last_trimmed: self.last_trimmed,
        }
    }
}

/// `a + b`, at most the largest `u64`.
pub open spec fn add_sat(a: u64, b: u64) -> u64 {
    if a + b <= u64::MAX {
        (a + b) as u64
    } else {
        u64::MAX
    }
}

/// `a - b`, at least zero.
pub open spec fn sub_sat(a: u64, b: u64) -> u64 {
    if a >= b {
        (a - b) as u64
    } else {
        0
    }
}

/// Whether `a0..a1` and `b0..b1` share a row.
pub open spec fn ranges_overlap(a0: u64, a1: u64, b0: u64, b1: u64) -> bool {
    a0 < b1 && b0 < a1
}

/// Whether `a0..a1` and `b0..b1` share a row.
pub fn overlap(a0: u64, a1: u64, b0: u64, b1: u64) -> (res: bool)
    ensures
        res == ranges_overlap(a0, a1, b0, b1),
{
    a0 < b1 && b0 < a1
}

/// Whether a request in flight covers a row of `start..end`.
pub open spec fn range_pending(pending: Seq<BackfillRequest>, start: u64, end: u64) -> bool {
    exists|i: int| 0 <= i < pending.len() && ranges_overlap(start, end, (#[trigger] pending[i]).start, pending[i].end)
}

/// Whether an empty range already retried covers a row of `start..end`.
pub open spec fn retried_overlap(ranges: Seq<EmptyTailRange>, start: u64, end: u64) -> bool {
    exists|i: int|
        0 <= i < ranges.len() && (#[trigger] ranges[i]).retry_attempted && ranges_overlap(
            start,
            end,
            ranges[i].start,
            ranges[i].end,
        )
}

/// The first empty range from index `from` on that covers a row of
/// `start..end` (only ones not retried when `unretried_only`).
pub open spec fn first_overlap(ranges: Seq<EmptyTailRange>, start: u64, end: u64, from: int, unretried_only: bool) -> Option<
    int,
>
    decreases ranges.len() - from,
{
    if from < 0 || from >= ranges.len() {
        None
    } else if ranges_overlap(start, end, ranges[from].start, ranges[from].end) && !(unretried_only
        && ranges[from].retry_attempted) {
        Some(from)
    } else {
        first_overlap(ranges, start, end, from + 1, unretried_only)
    }
}

/// Time passed from `then` to `now`, zero when `now` is earlier.
pub open spec fn elapsed(now: u64, then: u64) -> u64 {
    sub_sat(now, then)
}

/// The requests still within the timeout at `now`, in order.
pub open spec fn fresh_requests(pending: Seq<BackfillRequest>, now: u64) -> Seq<BackfillRequest>
    decreases pending.len(),
{
    if pending.len() == 0 {
        Seq::empty()
    } else {
        let rest = fresh_requests(pending.drop_last(), now);
        if elapsed(now, pending.last().issued_at) > BACKFILL_REQUEST_TIMEOUT_MS {
            rest
        } else {
            rest.push(pending.last())
        }
    }
}

proof fn lemma_fresh_len(pending: Seq<BackfillRequest>, now: u64)
    ensures
        fresh_requests(pending, now).len() <= pending.len(),
    decreases pending.len(),
{
    if pending.len() > 0 {
        lemma_fresh_len(pending.drop_last(), now);
    }
}

/// Dropping timed-out requests; the rate limit restarts when any was
/// dropped.
pub open spec fn spec_prune(b: BackfillView, now: u64) -> BackfillView {
    let kept = fresh_requests(b.pending, now);
    BackfillView {
        pending: kept,
        last_request_at: if kept.len() < b.pending.len() {
            None
        } else {
            b.last_request_at
        },
        ..b
    }
}

/// Whether the last request was too recent to send another.
pub open spec fn rate_limited(b: BackfillView, now: u64) -> bool {
    b.last_request_at matches Some(l) && elapsed(now, l) < BACKFILL_MIN_INTERVAL_MS
}

/// Whether the renderer holds a row still pending.
pub open spec fn has_pending_rows(v: RendererView) -> bool {
    exists|i: int| 0 <= i < v.rows.len() && (#[trigger] v.rows[i]) is Pending
}

/// Whether the renderer holds a row known to be missing.
pub open spec fn has_missing_rows(v: RendererView) -> bool {
    exists|i: int| 0 <= i < v.rows.len() && (#[trigger] v.rows[i]) is Missing
}

/// The viewport height the renderer reports (at least one).
pub open spec fn viewport_rows(v: RendererView) -> nat {
    if v.viewport_height >= 1 {
        v.viewport_height
    } else {
        1
    }
}

/// Whether an empty range answered before asks to wait before asking for
/// `start..end` again, and the ranges afterwards: the first range covering
/// a row of it is retried at once the first time, or when rows arrived
/// since it was recorded, or once the interval has passed (each time
/// restarting its clock); otherwise the request waits.
pub open spec fn spec_defer(b: BackfillView, start: u64, end: u64, now: u64) -> (bool, BackfillView) {
    if start >= end {
        (false, b)
    } else {
        match first_overlap(b.ranges, start, end, 0, false) {
            None => (false, b),
            Some(i) => {
                let r = b.ranges[i];
                if !r.retry_attempted {
                    (
                        false,
                        BackfillView {
                            ranges: b.ranges.update(i, EmptyTailRange { retry_attempted: true, recorded_at: now, ..r }),
                            ..b
                        },
                    )
                } else if r.highest_at != b.highest_loaded_row || elapsed(now, r.recorded_at) >= BACKFILL_MIN_INTERVAL_MS {
                    (false, BackfillView { ranges: b.ranges.update(i, EmptyTailRange { recorded_at: now, ..r }), ..b })
                } else {
                    (true, b)
                }
            },
        }
    }
}

/// Sending a request for `count` rows from `start`: nothing is sent for no
/// rows, or before any cursor update while no row is pending or missing;
/// otherwise the request takes the next id and is in flight from `now`.
pub open spec fn spec_send(b: BackfillView, v: RendererView, start: u64, count: u32, now: u64) -> (
    BackfillView,
    Option<BackfillOrder>,
) {
    if count == 0 || (b.cursor_seq == 0 && !has_pending_rows(v) && !has_missing_rows(v)) {
        (b, None)
    } else {
        let id = b.next_request_id;
        (
            BackfillView {
                next_request_id: add_sat(id, 1),
                pending: b.pending.push(
                    BackfillRequest { id, start, end: add_sat(start, count as u64), issued_at: now, more_expected: false },
                ),
                ..b
            },
            Some(BackfillOrder { subscription: b.subscription->0, request_id: id, start, count }),
        )
    }
}

/// Whether the first request after the handshake is due: following the
/// tail with nothing asked yet, more rows than the viewport (or rows
/// pending or missing), and more history than the handshake sent.
pub open spec fn initial_request_due(b: BackfillView, v: RendererView) -> bool {
    &&& v.follow_tail
    &&& b.pending.len() == 0
    &&& b.last_request_at is None
    &&& b.next_request_id == 1
    &&& (v.base_row + v.rows.len() > viewport_rows(v) || has_pending_rows(v) || has_missing_rows(v))
    &&& b.handshake_history_rows > b.handshake_snapshot_lines
}

/// The smaller of two counts.
pub open spec fn min_u32(a: u32, b: u32) -> u32 {
    if a <= b {
        a
    } else {
        b
    }
}

/// The first request: the first unloaded run around the viewport (at most
/// a request's worth), unless the loaded rows do not fill the viewport, an
/// empty range retried covers it, an empty range asks to wait, or it is in
/// flight.
pub open spec fn spec_initial_request(b: BackfillView, v: RendererView, now: u64) -> (BackfillView, Option<BackfillOrder>) {
    if b.highest_loaded_row matches Some(h) && h < viewport_rows(v) {
        (b, None)
    } else {
        match spec_first_unloaded_range(v, BACKFILL_LOOKAHEAD_ROWS as int) {
            None => (b, None),
            Some((start, span)) => {
                let count = min_u32(span, BACKFILL_MAX_ROWS_PER_REQUEST);
                if count == 0 {
                    (b, None)
                } else {
                    let end = add_sat(start, count as u64);
                    let trimmed = retried_overlap(b.ranges, start, end);
                    let (defer, b1) = spec_defer(b, start, end, now);
                    if !trimmed && !defer && !range_pending(b1.pending, start, end) {
                        let (b2, order) = spec_send(b1, v, start, count, now);
                        (BackfillView { last_request_at: Some(now), ..b2 }, order)
                    } else {
                        (b1, None)
                    }
                }
            },
        }
    }
}

/// A run length clamped to a request: between 1 and the most rows.
pub open spec fn clamp_count(span: u32) -> u32 {
    if span < 1 {
        1
    } else if span > BACKFILL_MAX_ROWS_PER_REQUEST {
        BACKFILL_MAX_ROWS_PER_REQUEST
    } else {
        span
    }
}

/// With nothing in flight and scrolled back: a gap in the history far
/// above the newest row is asked for first (once per gap, subject to the
/// rate limit). Returns whether this step decided.
pub open spec fn spec_gap_request(b: BackfillView, v: RendererView, now: u64) -> (BackfillView, Option<BackfillOrder>, bool) {
    if !v.follow_tail && b.known_base_row is Some && b.highest_loaded_row is Some && b.known_base_row->0
        < b.highest_loaded_row->0 && sub_sat(b.highest_loaded_row->0, b.known_base_row->0) > BACKFILL_LOOKAHEAD_ROWS {
        let base = b.known_base_row->0;
        let highest = b.highest_loaded_row->0;
        match spec_first_gap_between(v, base as int, add_sat(highest, 1) as int) {
            Some((gs, gspan)) => if gspan > 0 && sub_sat(highest, gs) > BACKFILL_LOOKAHEAD_ROWS && b.last_gap_start != Some(gs)
                && !range_pending(b.pending, gs, add_sat(gs, BACKFILL_MAX_ROWS_PER_REQUEST as u64)) {
                if rate_limited(b, now) {
                    (b, None, true)
                } else {
                    let (b2, order) = spec_send(b, v, gs, clamp_count(gspan), now);
                    (BackfillView { last_request_at: Some(now), last_gap_start: Some(gs), ..b2 }, order, true)
                }
            } else {
                (b, None, false)
            },
            None => (b, None, false),
        }
    } else {
        (b, None, false)
    }
}

/// With nothing in flight and scrolled back, once the cursor is known:
/// the rows just above the newest one are asked for (once per start,
/// subject to the rate limit), when far enough from the first known row.
/// Returns whether this step decided.
pub open spec fn spec_tail_request(b: BackfillView, v: RendererView, now: u64) -> (BackfillView, Option<BackfillOrder>, bool) {
    if !v.follow_tail && b.cursor_seq != 0 && b.highest_loaded_row is Some {
        let highest = b.highest_loaded_row->0;
        let (eligible, ts) = match b.known_base_row {
            Some(base) => (sub_sat(highest, base) > BACKFILL_LOOKAHEAD_ROWS, if sub_sat(highest, BACKFILL_LOOKAHEAD_ROWS) >= base {
                sub_sat(highest, BACKFILL_LOOKAHEAD_ROWS)
            } else {
                base
            }),
            None => (true, sub_sat(highest, BACKFILL_LOOKAHEAD_ROWS)),
        };
        if eligible && b.last_tail_start != Some(ts) && !range_pending(
            b.pending,
            ts,
            add_sat(ts, BACKFILL_MAX_ROWS_PER_REQUEST as u64),
        ) {
            if rate_limited(b, now) {
                (b, None, true)
            } else {
                let (b2, order) = spec_send(b, v, ts, BACKFILL_MAX_ROWS_PER_REQUEST, now);
                (BackfillView { last_tail_start: Some(ts), last_request_at: Some(now), ..b2 }, order, true)
            }
        } else {
            (b, None, false)
        }
    } else {
        (b, None, false)
    }
}

/// Whether the loaded history has a gap between the first known row and
/// the newest one (or no first row is known).
pub open spec fn has_history_gap(b: BackfillView, v: RendererView) -> bool {
    match (b.known_base_row, b.highest_loaded_row) {
        (Some(base), Some(h)) => base < h && spec_first_gap_between(v, base as int, add_sat(h, 1) as int) is Some,
        (None, Some(_)) => true,
        _ => false,
    }
}

/// The larger of two rows.
pub open spec fn max_u64(a: u64, b: u64) -> u64 {
    if a >= b {
        a
    } else {
        b
    }
}

/// Where a request starts when no empty range decides it: at least the
/// first known row and the row just above the newest.
pub open spec fn floor_start(start: u64, base: Option<u64>, tail: Option<u64>) -> u64 {
    match (base, tail) {
        (Some(b), Some(t)) => max_u64(max_u64(start, b), t),
        (Some(b), None) => max_u64(start, b),
        (None, Some(t)) => max_u64(start, t),
        (None, None) => start,
    }
}

/// A request start moved up to an earlier gap in the history, when that gap
/// is far from the newest row.
pub open spec fn gap_adjusted(b: BackfillView, v: RendererView, rs: u64) -> u64 {
    match (b.known_base_row, b.highest_loaded_row) {
        (Some(base), Some(h)) => if base < h && rs > base {
            match spec_first_gap_between(v, base as int, rs as int) {
                Some((gs, _)) => if gs < rs && sub_sat(h, base) > BACKFILL_LOOKAHEAD_ROWS && sub_sat(h, gs) > BACKFILL_LOOKAHEAD_ROWS {
                    gs
                } else {
                    rs
                },
                None => rs,
            }
        } else {
            rs
        },
        _ => rs,
    }
}

/// The general request: the first unloaded run around the viewport,
/// widened to an empty range not yet retried that covers it (or moved up to
/// the known history and the rows near the newest), moved to an earlier
/// gap, capped at the row after the newest; not while too many requests are
/// in flight or within the rate limit, not for rows beyond the tail while
/// following it, and not when an empty range says to wait.
pub open spec fn spec_general_request(b: BackfillView, v: RendererView, now: u64) -> (BackfillView, Option<BackfillOrder>) {
    let next = spec_first_unloaded_range(v, BACKFILL_LOOKAHEAD_ROWS as int);
    if b.pending.len() >= BACKFILL_MAX_PENDING_REQUESTS || rate_limited(b, now) {
        (b, None)
    } else if v.follow_tail && b.pending.len() == 0 && !has_history_gap(b, v) && next is None {
        (b, None)
    } else {
        match next {
            None => (b, None),
            Some((start, span)) => if (b.highest_loaded_row matches Some(h) && h < viewport_rows(v)) || span == 0 || (
            b.cursor_seq == 0 && !has_pending_rows(v) && !has_missing_rows(v)) || (v.follow_tail && b.pending.len()
                == 0 && b.highest_loaded_row is Some && start > add_sat(b.highest_loaded_row->0, 1)
                && b.next_request_id > 1) || (v.follow_tail && b.pending.len() == 0 && b.known_base_row == Some(0u64)
                && b.highest_loaded_row is Some && start > b.highest_loaded_row->0 && b.next_request_id == 1
                && v.base_row + v.rows.len() <= BACKFILL_LOOKAHEAD_ROWS && spec_first_gap_between(
                v,
                0,
                add_sat(b.highest_loaded_row->0, 1) as int,
            ) is None) {
                (b, None)
            } else {
                let tail_hint = match b.highest_loaded_row {
                    Some(h) => Some(sub_sat(h, BACKFILL_LOOKAHEAD_ROWS)),
                    None => None,
                };
                let (rs0, rspan) = match first_overlap(b.ranges, start, add_sat(start, span as u64), 0, true) {
                    Some(i) => (b.ranges[i].start, sub_sat(b.ranges[i].end, b.ranges[i].start) as u32),
                    None => (floor_start(start, b.known_base_row, tail_hint), span),
                };
                let capped = min_u32(rspan, BACKFILL_MAX_ROWS_PER_REQUEST);
                if capped == 0 {
                    (b, None)
                } else {
                    let rs1 = gap_adjusted(b, v, rs0);
                    let rs = match b.highest_loaded_row {
                        Some(h) => if rs1 > add_sat(h, 1) {
                            add_sat(h, 1)
                        } else {
                            rs1
                        },
                        None => rs1,
                    };
                    let re = add_sat(rs, capped as u64);
                    if retried_overlap(b.ranges, rs, re) {
                        (b, None)
                    } else {
                        let (defer, b1) = spec_defer(b, rs, re, now);
                        if defer || range_pending(b1.pending, rs, re) || (b1.known_base_row matches Some(base) && rs
                            < base) {
                            (b1, None)
                        } else {
                            let (b2, order) = spec_send(b1, v, rs, capped, now);
                            (
                                BackfillView {
                                    last_request_at: Some(now),
                                    last_tail_start: if b2.last_tail_start == Some(rs) {
                                        b2.last_tail_start
                                    } else {
                                        None
                                    },
                                    ..b2
                                },
                                order,
                            )
                        }
                    }
                }
            },
        }
    }
}

/// The request the client sends next, if any, and the bookkeeping
/// afterwards: nothing before subscribing; timed-out requests are dropped;
/// nothing before rows are loaded; the first request right after the
/// handshake when due; else, with nothing in flight, a gap far in the
/// history or the rows above the newest; else the general request.
pub open spec fn spec_next_backfill(b: BackfillView, v: RendererView, now: u64) -> (BackfillView, Option<BackfillOrder>) {
    if b.subscription is None {
        (b, None)
    } else {
        let b0 = spec_prune(b, now);
        if !b0.has_loaded_rows {
            (b0, None)
        } else if initial_request_due(b0, v) {
            spec_initial_request(b0, v, now)
        } else {
            let (b1, order1, done1) = if b0.pending.len() == 0 {
                spec_gap_request(b0, v, now)
            } else {
                (b0, None, false)
            };
            if done1 {
                (b1, order1)
            } else {
                let (b2, order2, done2) = if b0.pending.len() == 0 {
                    spec_tail_request(b1, v, now)
                } else {
                    (b1, None, false)
                };
                if done2 {
                    (b2, order2)
                } else {
                    spec_general_request(b2, v, now)
                }
            }
        }
    }
}


/// The state before any handshake.
pub open spec fn spec_initial_backfill() -> BackfillView {
    BackfillView {
        subscription: None,
        has_loaded_rows: false,
        pending: Seq::empty(),
        ranges: Seq::empty(),
        last_request_at: None,
        next_request_id: 1,
        known_base_row: None,
        highest_loaded_row: None,
        last_gap_start: None,
        last_tail_start: None,
        handshake_history_rows: 0,
        handshake_snapshot_lines: 0,
        cursor_seq: 0,
        last_trimmed: false,
    }
}

/// After the host's hello: the new subscription, and every record of
/// history and requests forgotten.
pub open spec fn spec_hello(subscription: u64, snapshot_lines: u32) -> BackfillView {
    BackfillView {
        subscription: Some(subscription),
        has_loaded_rows: false,
        pending: Seq::empty(),
        ranges: Seq::empty(),
        last_request_at: None,
        next_request_id: 1,
        known_base_row: None,
        highest_loaded_row: None,
        last_gap_start: None,
        last_tail_start: None,
        handshake_history_rows: 0,
        handshake_snapshot_lines: snapshot_lines,
        cursor_seq: 0,
        last_trimmed: false,
    }
}

/// The highest loaded row after row `row` was loaded.
pub open spec fn spec_note_loaded(b: BackfillView, row: u64) -> BackfillView {
    BackfillView {
        highest_loaded_row: Some(
            match b.highest_loaded_row {
                Some(h) => max_u64(h, row),
                None => row,
            },
        ),
        ..b
    }
}

/// The smaller of two rows.
pub open spec fn min_u64(a: u64, b: u64) -> u64 {
    if a <= b {
        a
    } else {
        b
    }
}

/// The rows an empty answer for `start..end` is recorded for: from the
/// first row held (`floor`) on, and to past the newest row and the rows
/// looked ahead.
pub open spec fn empty_record_bounds(b: BackfillView, floor: u64, start: u64, end: u64) -> (u64, u64) {
    let cs = max_u64(start, floor);
    let ce0 = max_u64(end, cs);
    let ce = match b.highest_loaded_row {
        Some(h) => max_u64(ce0, add_sat(add_sat(h, BACKFILL_LOOKAHEAD_ROWS), 1)),
        None => ce0,
    };
    (cs, ce)
}

/// Recording that the host answered `start..end` with nothing: the first
/// recorded range that shares a row grows to cover it (marked retried when
/// the history was trimmed), else a new range is added; the first known row
/// moves past it.
pub open spec fn spec_record_empty(b: BackfillView, floor: u64, start: u64, end: u64, trimmed: bool, now: u64) -> BackfillView {
    let (cs, ce) = empty_record_bounds(b, floor, start, end);
    if cs >= ce {
        b
    } else {
        let ranges = match first_overlap(b.ranges, cs, ce, 0, false) {
            Some(i) => b.ranges.update(
                i,
                EmptyTailRange {
                    start: min_u64(b.ranges[i].start, cs),
                    end: max_u64(b.ranges[i].end, ce),
                    recorded_at: now,
                    highest_at: b.highest_loaded_row,
                    retry_attempted: b.ranges[i].retry_attempted || trimmed,
                },
            ),
            None => b.ranges.push(
                EmptyTailRange {
                    start: cs,
                    end: ce,
                    recorded_at: now,
                    highest_at: b.highest_loaded_row,
                    retry_attempted: trimmed,
                },
            ),
        };
        let known = match b.known_base_row {
            Some(k) => k,
            None => cs,
        };
        BackfillView {
            ranges,
            known_base_row: if ce > known {
                Some(ce)
            } else {
                b.known_base_row
            },
            ..b
        }
    }
}

/// The recorded empty ranges sharing no row with `start..end`, in order.
pub open spec fn ranges_outside(ranges: Seq<EmptyTailRange>, start: u64, end: u64) -> Seq<EmptyTailRange>
    decreases ranges.len(),
{
    if ranges.len() == 0 {
        Seq::empty()
    } else {
        let rest = ranges_outside(ranges.drop_last(), start, end);
        if ranges_overlap(start, end, ranges.last().start, ranges.last().end) {
            rest
        } else {
            rest.push(ranges.last())
        }
    }
}

/// Forgetting the empty ranges that share a row with `start..end`.
pub open spec fn spec_clear_empty(b: BackfillView, start: u64, end: u64) -> BackfillView {
    if start >= end {
        b
    } else {
        BackfillView { ranges: ranges_outside(b.ranges, start, end), ..b }
    }
}

/// The first request in flight from index `from` on with id `id`.
pub open spec fn request_position(pending: Seq<BackfillRequest>, id: u64, from: int) -> Option<int>
    decreases pending.len() - from,
{
    if from < 0 || from >= pending.len() {
        None
    } else if pending[from].id == id {
        Some(from)
    } else {
        request_position(pending, id, from + 1)
    }
}

/// An answer to request `id` for `count` rows from `start_row` was applied:
/// when more is to come, the request stays in flight over those rows from
/// `now`; otherwise it is done, the empty range is recorded (when nothing
/// came) or cleared, the trim flag is kept, the rate limit restarts, and
/// the markers of a tail or gap request from that row are dropped. `floor`
/// is the first row the renderer holds then.
pub open spec fn spec_finish_response(
    b: BackfillView,
    id: u64,
    start_row: u64,
    count: u32,
    updates_empty: bool,
    observed_trim: bool,
    more: bool,
    floor: u64,
    now: u64,
) -> BackfillView {
    let end = add_sat(start_row, count as u64);
    let pending = match request_position(b.pending, id, 0) {
        Some(i) => if more {
            b.pending.update(
                i,
                BackfillRequest { issued_at: now, start: start_row, end, more_expected: true, ..b.pending[i] },
            )
        } else {
            b.pending.remove(i)
        },
        None => b.pending,
    };
    let b1 = BackfillView { pending, ..b };
    if more {
        b1
    } else {
        let trimmed = observed_trim || b.last_trimmed;
        let b2 = if updates_empty {
            spec_record_empty(b1, floor, start_row, end, trimmed, now)
        } else {
            spec_clear_empty(b1, start_row, end)
        };
        BackfillView {
            last_trimmed: trimmed,
            last_request_at: None,
            last_tail_start: if b2.last_tail_start == Some(start_row) {
                None
            } else {
                b2.last_tail_start
            },
            last_gap_start: if b2.last_gap_start == Some(start_row) {
                None
            } else {
                b2.last_gap_start
            },
            ..b2
        }
    }
}

/// What sending `order` at `now` adds to the requests in flight.
pub open spec fn request_for(order: BackfillOrder, now: u64) -> BackfillRequest {
    BackfillRequest {
        id: order.request_id,
        start: order.start,
        end: add_sat(order.start, order.count as u64),
        issued_at: now,
        more_expected: false,
    }
}

/// How a decision left the requests in flight: unchanged but for the
/// timed-out ones when nothing is sent; otherwise the one new request, for
/// 1 to `BACKFILL_MAX_ROWS_PER_REQUEST` rows under the next id, sharing no
/// row with a request still in flight, sent only while fewer than
/// `BACKFILL_MAX_PENDING_REQUESTS` are, with the rate limit restarted.
pub open spec fn decision_shape(b: BackfillView, after: BackfillView, order: Option<BackfillOrder>, now: u64) -> bool {
    let kept = spec_prune(b, now).pending;
    match order {
        None => after.pending == kept,
        Some(o) => {
            &&& b.subscription == Some(o.subscription)
            &&& 1 <= o.count <= BACKFILL_MAX_ROWS_PER_REQUEST
            &&& o.request_id == b.next_request_id
            &&& after.next_request_id == add_sat(b.next_request_id, 1)
            &&& !range_pending(kept, o.start, add_sat(o.start, o.count as u64))
            &&& kept.len() < BACKFILL_MAX_PENDING_REQUESTS
            &&& after.pending == kept.push(request_for(o, now))
            &&& after.last_request_at == Some(now)
        },
    }
}

proof fn lemma_send_shape(b: BackfillView, v: RendererView, start: u64, count: u32, now: u64)
    ensures
        ({
            let (b2, o) = spec_send(b, v, start, count, now);
            &&& b2.subscription == b.subscription
            &&& match o {
                None => b2 == b,
                Some(o) => {
                    &&& b.subscription == Some(o.subscription) || b.subscription is None
                    &&& o.count == count && count > 0 && o.start == start
                    &&& o.request_id == b.next_request_id
                    &&& b2.next_request_id == add_sat(b.next_request_id, 1)
                    &&& b2.pending == b.pending.push(request_for(o, now))
                },
            }
        }),
{
}

proof fn lemma_defer_keeps_pending(b: BackfillView, start: u64, end: u64, now: u64)
    ensures
        spec_defer(b, start, end, now).1.pending == b.pending,
        spec_defer(b, start, end, now).1.next_request_id == b.next_request_id,
        spec_defer(b, start, end, now).1.subscription == b.subscription,
{
}

proof fn lemma_pending_narrower(pending: Seq<BackfillRequest>, start: u64, e1: u64, e2: u64)
    requires
        e1 <= e2,
        !range_pending(pending, start, e2),
    ensures
        !range_pending(pending, start, e1),
{
    assert forall|i: int| 0 <= i < pending.len() implies !ranges_overlap(start, e1, (#[trigger] pending[i]).start, pending[i].end) by {
        assert(!ranges_overlap(start, e2, pending[i].start, pending[i].end));
    }
}

/// A decision on the next history request sends at most one request: for
/// 1 to `BACKFILL_MAX_ROWS_PER_REQUEST` rows, under the next id, on the
/// current subscription, sharing no row with a request still in flight,
/// which is then in flight from `now` and restarts the rate limit; when it
/// sends nothing, the requests in flight are those not timed out.
pub proof fn law_one_fresh_request(b: BackfillView, v: RendererView, now: u64)
    ensures
        ({
            let (after, order) = spec_next_backfill(b, v, now);
            b.subscription is None ==> order is None && after == b
        }),
        b.subscription is Some ==> ({
            let (after, order) = spec_next_backfill(b, v, now);
            decision_shape(b, after, order, now)
        }),
{
    if b.subscription is Some {
        let b0 = spec_prune(b, now);
        let (after, order) = spec_next_backfill(b, v, now);
        if !b0.has_loaded_rows {
        } else if initial_request_due(b0, v) {
            lemma_initial_shape(b0, v, now);
        } else {
            if b0.pending.len() == 0 {
                lemma_gap_shape(b0, v, now);
                let (b1, o1, d1) = spec_gap_request(b0, v, now);
                if !d1 {
                    lemma_tail_shape(b1, v, now);
                    let (b2, o2, d2) = spec_tail_request(b1, v, now);
                    if !d2 {
                        lemma_general_shape(b2, v, now);
                    }
                }
            } else {
                lemma_general_shape(b0, v, now);
            }
        }
    }
}

/// The requests in flight never exceed `BACKFILL_MAX_PENDING_REQUESTS`:
/// a decision on the next history request keeps that bound.
pub proof fn law_in_flight_bounded(b: BackfillView, v: RendererView, now: u64)
    requires
        b.pending.len() <= BACKFILL_MAX_PENDING_REQUESTS,
    ensures
        spec_next_backfill(b, v, now).0.pending.len() <= BACKFILL_MAX_PENDING_REQUESTS,
{
    law_one_fresh_request(b, v, now);
    lemma_fresh_len(b.pending, now);
}

/// The shape of a decision taken on state `b0`, whose requests in flight
/// are already free of timed-out ones.
pub open spec fn step_shape(b0: BackfillView, after: BackfillView, order: Option<BackfillOrder>, now: u64) -> bool {
    match order {
        None => after.pending == b0.pending,
        Some(o) => {
            &&& b0.subscription == Some(o.subscription)
            &&& 1 <= o.count <= BACKFILL_MAX_ROWS_PER_REQUEST
            &&& o.request_id == b0.next_request_id
            &&& after.next_request_id == add_sat(b0.next_request_id, 1)
            &&& !range_pending(b0.pending, o.start, add_sat(o.start, o.count as u64))
            &&& b0.pending.len() < BACKFILL_MAX_PENDING_REQUESTS
            &&& after.pending == b0.pending.push(request_for(o, now))
            &&& after.last_request_at == Some(now)
        },
    }
}

proof fn lemma_initial_shape(b0: BackfillView, v: RendererView, now: u64)
    requires
        b0.subscription is Some,
        b0.pending.len() == 0,
    ensures
        ({
            let (after, order) = spec_initial_request(b0, v, now);
            step_shape(b0, after, order, now)
        }),
{
    if let Some((start, span)) = spec_first_unloaded_range(v, BACKFILL_LOOKAHEAD_ROWS as int) {
        let count = min_u32(span, BACKFILL_MAX_ROWS_PER_REQUEST);
        let end = add_sat(start, count as u64);
        lemma_defer_keeps_pending(b0, start, end, now);
        let (defer, b1) = spec_defer(b0, start, end, now);
        lemma_send_shape(b1, v, start, count, now);
    }
}

proof fn lemma_gap_shape(b0: BackfillView, v: RendererView, now: u64)
    requires
        b0.subscription is Some,
        b0.pending.len() == 0,
    ensures
        ({
            let (after, order, done) = spec_gap_request(b0, v, now);
            &&& step_shape(b0, after, order, now)
            &&& !done ==> after == b0
        }),
{
    if !v.follow_tail && b0.known_base_row is Some && b0.highest_loaded_row is Some {
        let base = b0.known_base_row->0;
        let highest = b0.highest_loaded_row->0;
        if let Some((gs, gspan)) = spec_first_gap_between(v, base as int, add_sat(highest, 1) as int) {
            let c = clamp_count(gspan);
            lemma_send_shape(b0, v, gs, c, now);
            if !range_pending(b0.pending, gs, add_sat(gs, BACKFILL_MAX_ROWS_PER_REQUEST as u64)) {
                lemma_pending_narrower(b0.pending, gs, add_sat(gs, c as u64), add_sat(gs, BACKFILL_MAX_ROWS_PER_REQUEST as u64));
            }
        }
    }
}

proof fn lemma_tail_shape(b0: BackfillView, v: RendererView, now: u64)
    requires
        b0.subscription is Some,
        b0.pending.len() == 0,
    ensures
        ({
            let (after, order, done) = spec_tail_request(b0, v, now);
            &&& step_shape(b0, after, order, now)
            &&& !done ==> after == b0
        }),
{
    if !v.follow_tail && b0.cursor_seq != 0 && b0.highest_loaded_row is Some {
        let highest = b0.highest_loaded_row->0;
        let (eligible, ts) = match b0.known_base_row {
            Some(base) => (sub_sat(highest, base) > BACKFILL_LOOKAHEAD_ROWS, if sub_sat(highest, BACKFILL_LOOKAHEAD_ROWS) >= base {
                sub_sat(highest, BACKFILL_LOOKAHEAD_ROWS)
            } else {
                base
            }),
            None => (true, sub_sat(highest, BACKFILL_LOOKAHEAD_ROWS)),
        };
        lemma_send_shape(b0, v, ts, BACKFILL_MAX_ROWS_PER_REQUEST, now);
    }
}

proof fn lemma_general_shape(b0: BackfillView, v: RendererView, now: u64)
    requires
        b0.subscription is Some,
    ensures
        ({
            let (after, order) = spec_general_request(b0, v, now);
            step_shape(b0, after, order, now)
        }),
{
    let (after, order) = spec_general_request(b0, v, now);
    if order is Some {
        let (start, span) = spec_first_unloaded_range(v, BACKFILL_LOOKAHEAD_ROWS as int)->0;
        let tail_hint = match b0.highest_loaded_row {
            Some(h) => Some(sub_sat(h, BACKFILL_LOOKAHEAD_ROWS)),
            None => None,
        };
        let (rs0, rspan) = match first_overlap(b0.ranges, start, add_sat(start, span as u64), 0, true) {
            Some(i) => (b0.ranges[i].start, sub_sat(b0.ranges[i].end, b0.ranges[i].start) as u32),
            None => (floor_start(start, b0.known_base_row, tail_hint), span),
        };
        let capped = min_u32(rspan, BACKFILL_MAX_ROWS_PER_REQUEST);
        let rs1 = gap_adjusted(b0, v, rs0);
        let rs = match b0.highest_loaded_row {
            Some(h) => if rs1 > add_sat(h, 1) {
                add_sat(h, 1)
            } else {
                rs1
            },
            None => rs1,
        };
        let re = add_sat(rs, capped as u64);
        lemma_defer_keeps_pending(b0, rs, re, now);
        let (defer, b1) = spec_defer(b0, rs, re, now);
        lemma_send_shape(b1, v, rs, capped, now);
    }
}

/// Every request in flight has an id below the next one, and no two share
/// an id.
pub open spec fn ids_fresh(b: BackfillView) -> bool {
    &&& forall|i: int| 0 <= i < b.pending.len() ==> (#[trigger] b.pending[i]).id < b.next_request_id
    &&& forall|i: int, j: int|
        0 <= i < b.pending.len() && 0 <= j < b.pending.len() && i != j ==> (#[trigger] b.pending[i]).id
            != (#[trigger] b.pending[j]).id
}

proof fn lemma_fresh_subset(pending: Seq<BackfillRequest>, now: u64)
    ensures
        forall|k: int|
            0 <= k < fresh_requests(pending, now).len() ==> exists|j: int|
                0 <= j < pending.len() && pending[j] == #[trigger] fresh_requests(pending, now)[k],
    decreases pending.len(),
{
    if pending.len() > 0 {
        let p = pending.drop_last();
        lemma_fresh_subset(p, now);
        assert forall|k: int| 0 <= k < fresh_requests(pending, now).len() implies exists|j: int|
            0 <= j < pending.len() && pending[j] == #[trigger] fresh_requests(pending, now)[k] by {
            if k < fresh_requests(p, now).len() {
                let j = choose|j: int| 0 <= j < p.len() && p[j] == fresh_requests(p, now)[k];
                assert(pending[j] == fresh_requests(pending, now)[k]);
            } else {
                assert(pending[pending.len() - 1] == fresh_requests(pending, now)[k]);
            }
        }
    }
}

proof fn lemma_fresh_ids(b: BackfillView, now: u64)
    requires
        ids_fresh(b),
    ensures
        ids_fresh(spec_prune(b, now)),
    decreases b.pending.len(),
{
    if b.pending.len() > 0 {
        let p = b.pending.drop_last();
        let b1 = BackfillView { pending: p, ..b };
        assert(ids_fresh(b1)) by {
            assert forall|i: int, j: int|
                0 <= i < p.len() && 0 <= j < p.len() && i != j implies (#[trigger] p[i]).id != (#[trigger] p[j]).id by {
                assert(b.pending[i] == p[i] && b.pending[j] == p[j]);
            }
        }
        lemma_fresh_ids(b1, now);
        lemma_fresh_subset(p, now);
        let f = fresh_requests(b.pending, now);
        let fp = fresh_requests(p, now);
        let last = b.pending.last();
        assert(spec_prune(b1, now).pending == fp);
        assert(spec_prune(b, now).pending == f);
        if elapsed(now, last.issued_at) > BACKFILL_REQUEST_TIMEOUT_MS {
            assert(f == fp);
        } else {
            assert(f == fp.push(last));
            assert forall|i: int, j: int|
                0 <= i < f.len() && 0 <= j < f.len() && i != j implies (#[trigger] f[i]).id != (#[trigger] f[j]).id by {
                if i < fp.len() && j < fp.len() {
                    assert(f[i] == fp[i] && f[j] == fp[j]);
                } else if i < fp.len() {
                    let k = choose|k: int| 0 <= k < p.len() && p[k] == fp[i];
                    assert(b.pending[k] == fp[i]);
                    assert(f[i] == fp[i]);
                    assert(f[j] == b.pending[b.pending.len() - 1]);
                    assert(k != b.pending.len() - 1);
                    assert(b.pending[k].id != b.pending[b.pending.len() - 1].id);
                } else {
                    let k = choose|k: int| 0 <= k < p.len() && p[k] == fp[j];
                    assert(b.pending[k] == fp[j]);
                    assert(f[j] == fp[j]);
                    assert(f[i] == b.pending[b.pending.len() - 1]);
                }
            }
            assert forall|i: int| 0 <= i < f.len() implies (#[trigger] f[i]).id < b.next_request_id by {
                if i < fp.len() {
                    assert(f[i] == fp[i]);
                } else {
                    assert(f[i] == b.pending[b.pending.len() - 1]);
                }
            }
        }
    }
}

/// No two requests in flight share an id, and each id is below the next
/// one: a decision on the next history request keeps this (while the ids
/// have not run out).
pub proof fn law_request_ids_unique(b: BackfillView, v: RendererView, now: u64)
    requires
        ids_fresh(b),
        b.next_request_id < u64::MAX,
    ensures
        ids_fresh(spec_next_backfill(b, v, now).0),
{
    law_one_fresh_request(b, v, now);
    if b.subscription is Some {
        lemma_fresh_ids(b, now);
    }
}

proof fn lemma_position_none(pending: Seq<BackfillRequest>, id: u64, from: int)
    requires
        0 <= from,
        request_position(pending, id, from) is None,
    ensures
        forall|j: int| from <= j < pending.len() ==> (#[trigger] pending[j]).id != id,
    decreases pending.len() - from,
{
    if from < pending.len() {
        lemma_position_none(pending, id, from + 1);
    }
}

proof fn lemma_position_some(pending: Seq<BackfillRequest>, id: u64, from: int)
    requires
        0 <= from,
        request_position(pending, id, from) is Some,
    ensures
        from <= request_position(pending, id, from)->0 < pending.len(),
        pending[request_position(pending, id, from)->0].id == id,
    decreases pending.len() - from,
{
    if from < pending.len() && pending[from].id != id {
        lemma_position_some(pending, id, from + 1);
    }
}

proof fn lemma_clear_keeps_pending(b: BackfillView, start: u64, end: u64)
    ensures
        spec_clear_empty(b, start, end).pending == b.pending,
        spec_clear_empty(b, start, end).next_request_id == b.next_request_id,
{
}

/// A completed answer takes its request out of flight: afterwards no
/// request in flight has its id, and ids stay unique.
pub proof fn law_answer_retires_request(
    b: BackfillView,
    id: u64,
    start_row: u64,
    count: u32,
    updates_empty: bool,
    observed_trim: bool,
    floor: u64,
    now: u64,
)
    requires
        ids_fresh(b),
    ensures
        ({
            let after = spec_finish_response(b, id, start_row, count, updates_empty, observed_trim, false, floor, now);
            &&& ids_fresh(after)
            &&& forall|i: int| 0 <= i < after.pending.len() ==> (#[trigger] after.pending[i]).id != id
        }),
{
    let after = spec_finish_response(b, id, start_row, count, updates_empty, observed_trim, false, floor, now);
    let end = add_sat(start_row, count as u64);
    let pending = match request_position(b.pending, id, 0) {
        Some(i) => b.pending.remove(i),
        None => b.pending,
    };
    let b1 = BackfillView { pending, ..b };
    lemma_clear_keeps_pending(b1, start_row, end);
    match request_position(b.pending, id, 0) {
        Some(i) => {
            lemma_position_some(b.pending, id, 0);
            assert forall|k: int| 0 <= k < pending.len() implies (#[trigger] pending[k]).id != id by {
                if k < i {
                    assert(pending[k] == b.pending[k]);
                } else {
                    assert(pending[k] == b.pending[k + 1]);
                }
            }
            assert forall|k: int, l: int|
                0 <= k < pending.len() && 0 <= l < pending.len() && k != l implies (#[trigger] pending[k]).id
                    != (#[trigger] pending[l]).id by {
                let k2 = if k < i { k } else { k + 1 };
                let l2 = if l < i { l } else { l + 1 };
                assert(pending[k] == b.pending[k2]);
                assert(pending[l] == b.pending[l2]);
            }
            assert forall|k: int| 0 <= k < pending.len() implies (#[trigger] pending[k]).id < b.next_request_id by {
                if k < i {
                    assert(pending[k] == b.pending[k]);
                } else {
                    assert(pending[k] == b.pending[k + 1]);
                }
            }
        },
        None => {
            lemma_position_none(b.pending, id, 0);
        },
    }
    assert(after.pending == pending);
}

/// The requests in flight after a send of request `id` failed: that
/// request is taken out of flight; nothing else changes.
pub open spec fn spec_send_failed(b: BackfillView, id: u64) -> BackfillView {
    match request_position(b.pending, id, 0) {
        Some(i) => BackfillView { pending: b.pending.remove(i), ..b },
        None => b,
    }
}

proof fn lemma_send_failed_retires(b: BackfillView, id: u64)
    requires
        ids_fresh(b),
    ensures
        ids_fresh(spec_send_failed(b, id)),
        forall|i: int|
            0 <= i < spec_send_failed(b, id).pending.len() ==> (#[trigger] spec_send_failed(b, id).pending[i]).id != id,
        spec_send_failed(b, id).next_request_id == b.next_request_id,
{
    let pending = spec_send_failed(b, id).pending;
    match request_position(b.pending, id, 0) {
        Some(i) => {
            lemma_position_some(b.pending, id, 0);
            assert forall|k: int| 0 <= k < pending.len() implies (#[trigger] pending[k]).id != id
                && pending[k].id < b.next_request_id by {
                if k < i {
                    assert(pending[k] == b.pending[k]);
                } else {
                    assert(pending[k] == b.pending[k + 1]);
                }
            }
            assert forall|k: int, l: int|
                0 <= k < pending.len() && 0 <= l < pending.len() && k != l implies (#[trigger] pending[k]).id
                    != (#[trigger] pending[l]).id by {
                let k2 = if k < i { k } else { k + 1 };
                let l2 = if l < i { l } else { l + 1 };
                assert(pending[k] == b.pending[k2]);
                assert(pending[l] == b.pending[l2]);
            }
        },
        None => {
            lemma_position_none(b.pending, id, 0);
        },
    }
}

/// A request whose send failed is not in flight: when a decision returns a
/// request and sending it fails, afterwards no request in flight has its
/// id, ids stay unique, and the id is not handed out again.
pub proof fn law_failed_send_leaves_no_request(b: BackfillView, v: RendererView, now: u64)
    requires
        ids_fresh(b),
        b.next_request_id < u64::MAX,
    ensures
        ({
            let (after, order) = spec_next_backfill(b, v, now);
            order matches Some(o) ==> {
                let failed = spec_send_failed(after, o.request_id);
                &&& ids_fresh(failed)
                &&& forall|i: int| 0 <= i < failed.pending.len() ==> (#[trigger] failed.pending[i]).id != o.request_id
                &&& o.request_id < failed.next_request_id
            }
        }),
{
    law_request_ids_unique(b, v, now);
    law_one_fresh_request(b, v, now);
    let (after, order) = spec_next_backfill(b, v, now);
    if let Some(o) = order {
        lemma_send_failed_retires(after, o.request_id);
    }
}

/// The renderer after each row of `row..end` that no update touched was
/// marked unavailable, in order.
pub open spec fn mark_untouched(v: RendererView, row: int, end: int, touched: Seq<u64>) -> RendererView
    decreases end - row,
{
    if row >= end {
        v
    } else {
        let next = if touched.contains(row as u64) {
            v
        } else {
            spec_mark_row_missing(v, row)
        };
        mark_untouched(next, row + 1, end, touched)
    }
}

/// The renderer after every row of `row..end` was marked unavailable.
pub open spec fn mark_all_missing(v: RendererView, row: int, end: int) -> RendererView {
    mark_untouched(v, row, end, Seq::empty())
}

/// The renderer after an answer for `start..end` was complete, the rows its
/// updates touched given in ascending order: with no row touched, every
/// row of it still held is unavailable; otherwise the rows not touched are,
/// and the first row held moves back to the first row the answer covers
/// (not before the first known row) when that is earlier.
pub open spec fn spec_finalize_range(
    v: RendererView,
    known_base: Option<u64>,
    start: u64,
    end: u64,
    touched: Seq<u64>,
) -> RendererView {
    if start >= end {
        v
    } else if touched.len() == 0 {
        let clamp = max_u64(start, v.base_row);
        if clamp >= end {
            v
        } else {
            mark_all_missing(v, clamp as int, end as int)
        }
    } else {
        let lo = min_u64(start, touched[0]);
        let hi = max_u64(end, add_sat(touched.last(), 1));
        let bounds_start = match known_base {
            Some(base) => max_u64(lo, base),
            None => lo,
        };
        let marked = mark_untouched(v, start as int, end as int, touched);
        if bounds_start <= marked.base_row && bounds_start < hi {
            spec_set_base_row(marked, bounds_start)
        } else {
            marked
        }
    }
}

/// Time passed from `then` to `now`, zero when `now` is earlier.
fn elapsed_ms(now: u64, then: u64) -> (res: u64)
    ensures
        res == elapsed(now, then),
{
    now.saturating_sub(then)
}

proof fn lemma_fresh_step(pending: Seq<BackfillRequest>, i: int, now: u64)
    requires
        0 <= i < pending.len(),
    ensures
        fresh_requests(pending.take(i + 1), now) == if elapsed(now, pending[i].issued_at)
            > BACKFILL_REQUEST_TIMEOUT_MS {
            fresh_requests(pending.take(i), now)
        } else {
            fresh_requests(pending.take(i), now).push(pending[i])
        },
{
    assert(pending.take(i + 1).drop_last() =~= pending.take(i));
}

/// Whether `row` is among `rows`.
fn slice_contains(rows: &[u64], row: u64) -> (res: bool)
    ensures
        res == rows@.contains(row),
{
    let mut i: usize = 0;
    while i < rows.len()
        invariant
            i <= rows@.len(),
            forall|j: int| 0 <= j < i ==> rows@[j] != row,
        decreases rows.len() - i,
    {
        if rows[i] == row {
            return true;
        }
        i = i + 1;
    }
    false
}

impl Backfill {
    /// Drops the requests that have waited past the timeout; when any was
    /// dropped, the rate limit restarts.
    pub fn prune_backfill_requests(&mut self, now: u64)
        ensures
            final(self)@ == spec_prune(old(self)@, now),
    {
        let n = self.pending.len();
        let mut kept: Vec<BackfillRequest> = Vec::new();
        let mut i: usize = 0;
        while i < n
            invariant
                n == self.pending@.len(),
                i <= n,
                kept@ == fresh_requests(self.pending@.take(i as int), now),
            decreases n - i,
        {
            let r = self.pending[i];
            proof {
                lemma_fresh_step(self.pending@, i as int, now);
            }
            if elapsed_ms(now, r.issued_at) <= BACKFILL_REQUEST_TIMEOUT_MS {
                kept.push(r);
            }
            i = i + 1;
        }
        proof {
            assert(self.pending@.take(n as int) =~= self.pending@);
            lemma_fresh_len(self.pending@, now);
        }
        if kept.len() < n {
            self.last_request_at = None;
        }
        self.pending = kept;
    }

    /// Whether a request in flight covers a row of `start..end`.
    pub fn is_range_pending(&self, start: u64, end: u64) -> (res: bool)
        ensures
            res == range_pending(self@.pending, start, end),
    {
        let n = self.pending.len();
        let mut i: usize = 0;
        while i < n
            invariant
                n == self.pending@.len(),
                i <= n,
                forall|j: int| 0 <= j < i ==> !ranges_overlap(start, end, (#[trigger] self.pending@[j]).start, self.pending@[j].end),
            decreases n - i,
        {
            let r = self.pending[i];
            if overlap(start, end, r.start, r.end) {
                return true;
            }
            i = i + 1;
        }
        false
    }

    /// Whether an empty range already retried covers a row of `start..end`.
    fn overlaps_retried(&self, start: u64, end: u64) -> (res: bool)
        ensures
            res == retried_overlap(self@.ranges, start, end),
    {
        let n = self.empty_tail_ranges.len();
        let mut i: usize = 0;
        while i < n
            invariant
                n == self.empty_tail_ranges@.len(),
                i <= n,
                forall|j: int|
                    0 <= j < i ==> !((#[trigger] self.empty_tail_ranges@[j]).retry_attempted && ranges_overlap(
                        start,
                        end,
                        self.empty_tail_ranges@[j].start,
                        self.empty_tail_ranges@[j].end,
                    )),
            decreases n - i,
        {
            let r = self.empty_tail_ranges[i];
            if r.retry_attempted && overlap(start, end, r.start, r.end) {
                return true;
            }
            i = i + 1;
        }
        false
    }

    /// The first empty range covering a row of `start..end` (only ones not
    /// retried when `unretried_only`).
    fn find_overlap(&self, start: u64, end: u64, unretried_only: bool) -> (res: Option<usize>)
        ensures
            match res {
                Some(i) => i < self@.ranges.len() && first_overlap(self@.ranges, start, end, 0, unretried_only) == Some(i as int),
                None => first_overlap(self@.ranges, start, end, 0, unretried_only) is None,
            },
    {
        let n = self.empty_tail_ranges.len();
        let mut i: usize = 0;
        while i < n
            invariant
                n == self.empty_tail_ranges@.len(),
                i <= n,
                first_overlap(self@.ranges, start, end, 0, unretried_only) == first_overlap(
                    self@.ranges,
                    start,
                    end,
                    i as int,
                    unretried_only,
                ),
            decreases n - i,
        {
            let r = self.empty_tail_ranges[i];
            if overlap(start, end, r.start, r.end) && !(unretried_only && r.retry_attempted) {
                return Some(i);
            }
            i = i + 1;
        }
        None
    }

    /// Whether an empty range answered before asks to wait before asking
    /// for `start..end` again; the range's retry bookkeeping is updated when
    /// it does not (see `spec_defer`).
    fn should_defer_empty_retry(&mut self, start: u64, end: u64, now: u64) -> (res: bool)
        ensures
            (res, final(self)@) == spec_defer(old(self)@, start, end, now),
    {
        if start >= end {
            return false;
        }
        match self.find_overlap(start, end, false) {
            None => false,
            Some(i) => {
                let r = self.empty_tail_ranges[i];
                if !r.retry_attempted {
                    self.empty_tail_ranges.set(i, EmptyTailRange { retry_attempted: true, recorded_at: now, ..r });
                    false
                } else if r.highest_at != self.highest_loaded_row || elapsed_ms(now, r.recorded_at)
                    >= BACKFILL_MIN_INTERVAL_MS {
                    self.empty_tail_ranges.set(i, EmptyTailRange { recorded_at: now, ..r });
                    false
                } else {
                    true
                }
            },
        }
    }

    /// Records a request for `count` rows from `start` as in flight under
    /// the next id, and returns it to be sent (see `spec_send`).
    fn send_backfill_request(&mut self, renderer: &GridRenderer, start: u64, count: u32, now: u64) -> (res: Option<
        BackfillOrder,
    >)
        requires
            old(self).subscription is Some,
            renderer.wf(),
        ensures
            (final(self)@, res) == spec_send(old(self)@, renderer@, start, count, now),
    {
        if count == 0 {
            return None;
        }
        if self.cursor_seq == 0 && !renderer.has_pending_rows() && !renderer.has_missing_rows() {
            return None;
        }
        let id = self.next_request_id;
        self.next_request_id = id.saturating_add(1);
        self.pending.push(
            BackfillRequest {
                id,
                start,
                end: start.saturating_add(count as u64),
                issued_at: now,
                more_expected: false,
            },
        );
        let subscription = match self.subscription {
            Some(s) => s,
            None => 0,
        };
        Some(BackfillOrder { subscription, request_id: id, start, count })
    }

    /// Whether the last request was too recent to send another at `now`.
    fn rate_limited_at(&self, now: u64) -> (res: bool)
        ensures
            res == rate_limited(self@, now),
    {
        match self.last_request_at {
            Some(l) => elapsed_ms(now, l) < BACKFILL_MIN_INTERVAL_MS,
            None => false,
        }
    }

    /// Whether the loaded history has a gap (see `has_history_gap`).
    fn history_has_gap(&self, renderer: &GridRenderer) -> (res: bool)
        requires
            renderer.wf(),
        ensures
            res == has_history_gap(self@, renderer@),
    {
        match (self.known_base_row, self.highest_loaded_row) {
            (Some(base), Some(h)) => base < h && renderer.first_gap_between(base, h.saturating_add(1)).is_some(),
            (None, Some(_)) => true,
            _ => false,
        }
    }

    /// A request start moved up to an earlier gap (see `gap_adjusted`).
    fn adjust_to_gap(&self, renderer: &GridRenderer, rs: u64) -> (res: u64)
        requires
            renderer.wf(),
        ensures
            res == gap_adjusted(self@, renderer@, rs),
    {
        match (self.known_base_row, self.highest_loaded_row) {
            (Some(base), Some(h)) => {
                if base < h && rs > base {
                    match renderer.first_gap_between(base, rs) {
                        Some((gs, _)) => {
                            if gs < rs && h.saturating_sub(base) > BACKFILL_LOOKAHEAD_ROWS && h.saturating_sub(gs)
                                > BACKFILL_LOOKAHEAD_ROWS {
                                gs
                            } else {
                                rs
                            }
                        },
                        None => rs,
                    }
                } else {
                    rs
                }
            },
            _ => rs,
        }
    }

    /// The first request right after the handshake (see
    /// `spec_initial_request`).
    fn initial_request(&mut self, renderer: &GridRenderer, now: u64) -> (res: Option<BackfillOrder>)
        requires
            old(self).subscription is Some,
            renderer.wf(),
        ensures
            (final(self)@, res) == spec_initial_request(old(self)@, renderer@, now),
    {
        let vh = renderer.viewport_height() as u64;
        if let Some(h) = self.highest_loaded_row {
            if h < vh {
                return None;
            }
        }
        match renderer.first_unloaded_range(BACKFILL_LOOKAHEAD_ROWS as usize) {
            None => None,
            Some((start, span)) => {
                let count = if span <= BACKFILL_MAX_ROWS_PER_REQUEST {
                    span
                } else {
                    BACKFILL_MAX_ROWS_PER_REQUEST
                };
                if count == 0 {
                    return None;
                }
                let end = start.saturating_add(count as u64);
                let trimmed = self.overlaps_retried(start, end);
                let defer = self.should_defer_empty_retry(start, end, now);
                if !trimmed && !defer && !self.is_range_pending(start, end) {
                    let order = self.send_backfill_request(renderer, start, count, now);
                    self.last_request_at = Some(now);
                    order
                } else {
                    None
                }
            },
        }
    }

    /// A gap far in the history, asked for first (see `spec_gap_request`);
    /// the flag says whether this step decided.
    fn gap_request(&mut self, renderer: &GridRenderer, now: u64) -> (res: (Option<BackfillOrder>, bool))
        requires
            old(self).subscription is Some,
            renderer.wf(),
        ensures
            (final(self)@, res.0, res.1) == spec_gap_request(old(self)@, renderer@, now),
    {
        if renderer.is_following_tail() {
            return (None, false);
        }
        let (base, highest) = match (self.known_base_row, self.highest_loaded_row) {
            (Some(b), Some(h)) => (b, h),
            _ => {
                return (None, false);
            },
        };
        if !(base < highest && highest.saturating_sub(base) > BACKFILL_LOOKAHEAD_ROWS) {
            return (None, false);
        }
        match renderer.first_gap_between(base, highest.saturating_add(1)) {
            None => (None, false),
            Some((gs, gspan)) => {
                let eligible = gspan > 0 && highest.saturating_sub(gs) > BACKFILL_LOOKAHEAD_ROWS && match self.last_gap_start {
                    Some(prev) => prev != gs,
                    None => true,
                } && !self.is_range_pending(gs, gs.saturating_add(BACKFILL_MAX_ROWS_PER_REQUEST as u64));
                if !eligible {
                    return (None, false);
                }
                if self.rate_limited_at(now) {
                    return (None, true);
                }
                let count = if gspan < 1 {
                    1
                } else if gspan > BACKFILL_MAX_ROWS_PER_REQUEST {
                    BACKFILL_MAX_ROWS_PER_REQUEST
                } else {
                    gspan
                };
                let order = self.send_backfill_request(renderer, gs, count, now);
                self.last_request_at = Some(now);
                self.last_gap_start = Some(gs);
                (order, true)
            },
        }
    }

    /// The rows just above the newest one (see `spec_tail_request`); the
    /// flag says whether this step decided.
    fn tail_request(&mut self, renderer: &GridRenderer, now: u64) -> (res: (Option<BackfillOrder>, bool))
        requires
            old(self).subscription is Some,
            renderer.wf(),
        ensures
            (final(self)@, res.0, res.1) == spec_tail_request(old(self)@, renderer@, now),
    {
        if renderer.is_following_tail() || self.cursor_seq == 0 {
            return (None, false);
        }
        let highest = match self.highest_loaded_row {
            Some(h) => h,
            None => {
                return (None, false);
            },
        };
        let back = highest.saturating_sub(BACKFILL_LOOKAHEAD_ROWS);
        let (eligible, ts) = match self.known_base_row {
            Some(base) => (highest.saturating_sub(base) > BACKFILL_LOOKAHEAD_ROWS, if back >= base {
                back
            } else {
                base
            }),
            None => (true, back),
        };
        let fresh = match self.last_tail_start {
            Some(prev) => prev != ts,
            None => true,
        };
        if !(eligible && fresh && !self.is_range_pending(ts, ts.saturating_add(BACKFILL_MAX_ROWS_PER_REQUEST as u64))) {
            return (None, false);
        }
        if self.rate_limited_at(now) {
            return (None, true);
        }
        let order = self.send_backfill_request(renderer, ts, BACKFILL_MAX_ROWS_PER_REQUEST, now);
        self.last_tail_start = Some(ts);
        self.last_request_at = Some(now);
        (order, true)
    }

    /// The general request (see `spec_general_request`).
    #[verifier::spinoff_prover]
    #[verifier::rlimit(40)]
    fn general_request(&mut self, renderer: &GridRenderer, now: u64) -> (res: Option<BackfillOrder>)
        requires
            old(self).subscription is Some,
            renderer.wf(),
        ensures
            (final(self)@, res) == spec_general_request(old(self)@, renderer@, now),
    {
        let next = renderer.first_unloaded_range(BACKFILL_LOOKAHEAD_ROWS as usize);
        if self.pending.len() >= BACKFILL_MAX_PENDING_REQUESTS || self.rate_limited_at(now) {
            return None;
        }
        let follow = renderer.is_following_tail();
        if follow && self.pending.len() == 0 && !self.history_has_gap(renderer) && next.is_none() {
            return None;
        }
        let (start, span) = match next {
            None => {
                return None;
            },
            Some(p) => p,
        };
        let vh = renderer.viewport_height() as u64;
        if let Some(h) = self.highest_loaded_row {
            if h < vh {
                return None;
            }
        }
        if span == 0 {
            return None;
        }
        if self.cursor_seq == 0 && !renderer.has_pending_rows() && !renderer.has_missing_rows() {
            return None;
        }
        if follow && self.pending.len() == 0 {
            if let Some(h) = self.highest_loaded_row {
                if start > h.saturating_add(1) && self.next_request_id > 1 {
                    return None;
                }
                if let Some(base) = self.known_base_row {
                    if base == 0 && start > h && self.next_request_id == 1 && renderer.total_rows()
                        <= BACKFILL_LOOKAHEAD_ROWS && renderer.first_gap_between(0, h.saturating_add(1)).is_none() {
                        return None;
                    }
                }
            }
        }
        let tail_hint = match self.highest_loaded_row {
            Some(h) => Some(h.saturating_sub(BACKFILL_LOOKAHEAD_ROWS)),
            None => None,
        };
        let (rs0, rspan) = match self.find_overlap(start, start.saturating_add(span as u64), true) {
            Some(i) => {
                let r = self.empty_tail_ranges[i];
                (r.start, r.end.saturating_sub(r.start) as u32)
            },
            None => {
                let floor = match (self.known_base_row, tail_hint) {
                    (Some(b), Some(t)) => {
                        let m = if start >= b {
                            start
                        } else {
                            b
                        };
                        if m >= t {
                            m
                        } else {
                            t
                        }
                    },
                    (Some(b), None) => if start >= b {
                        start
                    } else {
                        b
                    },
                    (None, Some(t)) => if start >= t {
                        start
                    } else {
                        t
                    },
                    (None, None) => start,
                };
                (floor, span)
            },
        };
        let capped = if rspan <= BACKFILL_MAX_ROWS_PER_REQUEST {
            rspan
        } else {
            BACKFILL_MAX_ROWS_PER_REQUEST
        };
        if capped == 0 {
            return None;
        }
        let rs1 = self.adjust_to_gap(renderer, rs0);
        let rs = match self.highest_loaded_row {
            Some(h) => {
                let max_start = h.saturating_add(1);
                if rs1 > max_start {
                    max_start
                } else {
                    rs1
                }
            },
            None => rs1,
        };
        let re = rs.saturating_add(capped as u64);
        if self.overlaps_retried(rs, re) {
            return None;
        }
        if self.should_defer_empty_retry(rs, re, now) {
            return None;
        }
        if self.is_range_pending(rs, re) {
            return None;
        }
        if let Some(base) = self.known_base_row {
            if rs < base {
                return None;
            }
        }
        let order = self.send_backfill_request(renderer, rs, capped, now);
        self.last_request_at = Some(now);
        let keep_tail = match self.last_tail_start {
            Some(prev) => prev == rs,
            None => false,
        };
        if !keep_tail {
            self.last_tail_start = None;
        }
        order
    }

    /// Decides the next history request, if any, and updates the
    /// bookkeeping (see `spec_next_backfill`): the caller sends what comes
    /// back.
    pub fn maybe_request_backfill(&mut self, renderer: &GridRenderer, now: u64) -> (res: Option<BackfillOrder>)
        requires
            renderer.wf(),
        ensures
            (final(self)@, res) == spec_next_backfill(old(self)@, renderer@, now),
    {
        if self.subscription.is_none() {
            return None;
        }
        self.prune_backfill_requests(now);
        if !self.has_loaded_rows {
            return None;
        }
        let vh = renderer.viewport_height() as u64;
        if renderer.is_following_tail() && self.pending.len() == 0 && self.last_request_at.is_none()
            && self.next_request_id == 1 && (renderer.total_rows() > vh || renderer.has_pending_rows()
            || renderer.has_missing_rows()) && self.handshake_history_rows > self.handshake_snapshot_lines as u64 {
            return self.initial_request(renderer, now);
        }
        if self.pending.len() == 0 {
            let (order, done) = self.gap_request(renderer, now);
            if done {
                return order;
            }
            let (order, done) = self.tail_request(renderer, now);
            if done {
                return order;
            }
        }
        self.general_request(renderer, now)
    }

    /// The state before any handshake.
    pub fn new() -> (res: Self)
        ensures
            res@ == spec_initial_backfill(),
    {
        Backfill {
            subscription: None,
            has_loaded_rows: false,
            pending: Vec::new(),
            empty_tail_ranges: Vec::new(),
            last_request_at: None,
            next_request_id: 1,
            known_base_row: None,
            highest_loaded_row: None,
            last_gap_start: None,
            last_tail_start: None,
            handshake_history_rows: 0,
            handshake_snapshot_lines: 0,
            cursor_seq: 0,
            last_trimmed: false,
        }
    }

    /// Starts over after the host's hello for `subscription`.
    pub fn on_hello(&mut self, subscription: u64, snapshot_lines: u32)
        ensures
            final(self)@ == spec_hello(subscription, snapshot_lines),
    {
        *self = Backfill::new();
        self.subscription = Some(subscription);
        self.handshake_snapshot_lines = snapshot_lines;
    }

    /// Notes that row `row` was loaded.
    pub fn note_loaded_row(&mut self, row: u64)
        ensures
            final(self)@ == spec_note_loaded(old(self)@, row),
    {
        self.highest_loaded_row = Some(
            match self.highest_loaded_row {
                Some(existing) => if existing >= row {
                    existing
                } else {
                    row
                },
                None => row,
            },
        );
    }

    /// Records that the host answered `start..end` with nothing (see
    /// `spec_record_empty`); `floor` is the first row the renderer holds.
    pub fn record_empty_tail_range(&mut self, floor: u64, start: u64, end: u64, trimmed: bool, now: u64)
        ensures
            final(self)@ == spec_record_empty(old(self)@, floor, start, end, trimmed, now),
    {
        let clamped_start = if start >= floor {
            start
        } else {
            floor
        };
        let mut clamped_end = if end >= clamped_start {
            end
        } else {
            clamped_start
        };
        if let Some(h) = self.highest_loaded_row {
            let ceiling = h.saturating_add(BACKFILL_LOOKAHEAD_ROWS).saturating_add(1);
            if ceiling > clamped_end {
                clamped_end = ceiling;
            }
        }
        if clamped_start >= clamped_end {
            return;
        }
        let highest = self.highest_loaded_row;
        match self.find_overlap(clamped_start, clamped_end, false) {
            Some(i) => {
                let r = self.empty_tail_ranges[i];
                self.empty_tail_ranges.set(
                    i,
                    EmptyTailRange {
                        start: if r.start <= clamped_start {
                            r.start
                        } else {
                            clamped_start
                        },
                        end: if r.end >= clamped_end {
                            r.end
                        } else {
                            clamped_end
                        },
                        recorded_at: now,
                        highest_at: highest,
                        retry_attempted: r.retry_attempted || trimmed,
                    },
                );
            },
            None => {
                self.empty_tail_ranges.push(
                    EmptyTailRange {
                        start: clamped_start,
                        end: clamped_end,
                        recorded_at: now,
                        highest_at: highest,
                        retry_attempted: trimmed,
                    },
                );
            },
        }
        let known = match self.known_base_row {
            Some(k) => k,
            None => clamped_start,
        };
        if clamped_end > known {
            self.known_base_row = Some(clamped_end);
        }
    }

    /// Forgets the empty ranges sharing a row with `start..end`.
    pub fn clear_empty_tail_ranges(&mut self, start: u64, end: u64)
        ensures
            final(self)@ == spec_clear_empty(old(self)@, start, end),
    {
        if start >= end {
            return;
        }
        let n = self.empty_tail_ranges.len();
        let mut kept: Vec<EmptyTailRange> = Vec::new();
        let mut i: usize = 0;
        while i < n
            invariant
                n == self.empty_tail_ranges@.len(),
                i <= n,
                kept@ == ranges_outside(self.empty_tail_ranges@.take(i as int), start, end),
            decreases n - i,
        {
            let r = self.empty_tail_ranges[i];
            proof {
                assert(self.empty_tail_ranges@.take(i + 1).drop_last() =~= self.empty_tail_ranges@.take(i as int));
            }
            if !overlap(start, end, r.start, r.end) {
                kept.push(r);
            }
            i = i + 1;
        }
        proof {
            assert(self.empty_tail_ranges@.take(n as int) =~= self.empty_tail_ranges@);
        }
        self.empty_tail_ranges = kept;
    }

    /// The send of `order` failed with `error`: the request is taken out of
    /// flight (see `spec_send_failed`) and the failure is the transport
    /// error returned.
    pub fn send_failed(&mut self, order: &BackfillOrder, error: String) -> (res: ClientError)
        ensures
            final(self)@ == spec_send_failed(old(self)@, order.request_id),
            res == ClientError::Transport(error),
    {
        if let Some(i) = self.request_index(order.request_id) {
            self.pending.remove(i);
        }
        ClientError::Transport(error)
    }

    /// The position of the request in flight with id `id`.
    fn request_index(&self, id: u64) -> (res: Option<usize>)
        ensures
            match res {
                Some(i) => i < self@.pending.len() && request_position(self@.pending, id, 0) == Some(i as int),
                None => request_position(self@.pending, id, 0) is None,
            },
    {
        let n = self.pending.len();
        let mut i: usize = 0;
        while i < n
            invariant
                n == self.pending@.len(),
                i <= n,
                request_position(self@.pending, id, 0) == request_position(self@.pending, id, i as int),
            decreases n - i,
        {
            if self.pending[i].id == id {
                return Some(i);
            }
            i = i + 1;
        }
        None
    }

    /// Books an applied answer to request `id` (see `spec_finish_response`).
    pub fn finish_response(
        &mut self,
        id: u64,
        start_row: u64,
        count: u32,
        updates_empty: bool,
        observed_trim: bool,
        more: bool,
        floor: u64,
        now: u64,
    )
        ensures
            final(self)@ == spec_finish_response(
                old(self)@,
                id,
                start_row,
                count,
                updates_empty,
                observed_trim,
                more,
                floor,
                now,
            ),
    {
        let end = start_row.saturating_add(count as u64);
        if let Some(i) = self.request_index(id) {
            if more {
                let r = self.pending[i];
                self.pending.set(
                    i,
                    BackfillRequest { issued_at: now, start: start_row, end, more_expected: true, ..r },
                );
            } else {
                self.pending.remove(i);
            }
        }
        if more {
            return;
        }
        let trimmed = observed_trim || self.last_trimmed;
        if updates_empty {
            self.record_empty_tail_range(floor, start_row, end, trimmed, now);
        } else {
            self.clear_empty_tail_ranges(start_row, end);
        }
        self.last_trimmed = trimmed;
        self.last_request_at = None;
        if let Some(prev) = self.last_tail_start {
            if prev == start_row {
                self.last_tail_start = None;
            }
        }
        if let Some(prev) = self.last_gap_start {
            if prev == start_row {
                self.last_gap_start = None;
            }
        }
    }

    /// Marks unavailable the rows of `start..end` that an answer did not
    /// touch, and moves the renderer's first row back to what the answer
    /// covered (see `spec_finalize_range`); `touched` is ascending.
    pub fn finalize_backfill_range(&self, renderer: &mut GridRenderer, start: u64, end: u64, touched: &[u64])
        requires
            old(renderer).wf(),
        ensures
            final(renderer).wf(),
            final(renderer)@ == spec_finalize_range(old(renderer)@, self.known_base_row, start, end, touched@),
    {
        if start >= end {
            return;
        }
        if touched.len() == 0 {
            let base = renderer.base_row();
            let clamp = if start >= base {
                start
            } else {
                base
            };
            if clamp >= end {
                return;
            }
            let ghost v0 = renderer@;
            let mut row = clamp;
            while row < end
                invariant
                    renderer.wf(),
                    clamp <= row <= end,
                    mark_untouched(renderer@, row as int, end as int, Seq::empty()) == mark_untouched(
                        v0,
                        clamp as int,
                        end as int,
                        Seq::empty(),
                    ),
                decreases end - row,
            {
                renderer.mark_row_missing(row);
                row = row + 1;
            }
            return;
        }
        let first = touched[0];
        let last = touched[touched.len() - 1];
        let lo = if start <= first {
            start
        } else {
            first
        };
        let hi = if end >= last.saturating_add(1) {
            end
        } else {
            last.saturating_add(1)
        };
        let bounds_start = match self.known_base_row {
            Some(base) => if lo >= base {
                lo
            } else {
                base
            },
            None => lo,
        };
        let ghost v0 = renderer@;
        let mut row = start;
        while row < end
            invariant
                renderer.wf(),
                start <= row <= end,
                mark_untouched(renderer@, row as int, end as int, touched@) == mark_untouched(
                    v0,
                    start as int,
                    end as int,
                    touched@,
                ),
            decreases end - row,
        {
            if !slice_contains(touched, row) {
                renderer.mark_row_missing(row);
            }
            row = row + 1;
        }
        if bounds_start <= renderer.base_row() && bounds_start < hi {
            renderer.set_base_row(bounds_start);
        }
    }
}

} // verus!

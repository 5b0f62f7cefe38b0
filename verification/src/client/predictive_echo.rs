//! Mosh-inspired predictive echo: typed input is shown at once, underlined,
//! until the host acknowledges it or it times out.

use std::time::Instant;

use vstd::prelude::*;

use crate::protocol::ControlMessage;

verus! {

#[verifier::external_type_specification]
#[verifier::external_body]
pub struct ExInstant(Instant);

/// `Instant::now()` of std: a reading of the monotonic clock. Nothing is
/// stated of the value, which depends on the time.
#[verifier::external_body]
fn instant_now() -> (res: Instant) {
    Instant::now()
}

/// `Instant::elapsed` of std, in whole nanoseconds, saturating at
/// `u64::MAX`. Nothing is stated of the value, which depends on the time.
#[verifier::external_body]
fn nanos_since(epoch: &Instant) -> (res: u64) {
    u64::try_from(epoch.elapsed().as_nanos()).unwrap_or(u64::MAX)
}

/// The default time after which an unacknowledged prediction is dropped:
/// 500 ms.
pub const DEFAULT_PREDICTION_TIMEOUT_NANOS: u64 = 500_000_000;

/// A predicted piece of input.
#[derive(Debug)]
pub struct PredictedChar {
    /// The byte(s) predicted.
    pub chars: Vec<u8>,
    /// The cursor position where it was inserted.
    pub position: (u16, u16),
    /// When the prediction was made, in nanoseconds since the tracker was
    /// created.
    pub timestamp: u64,
    /// Whether the host has acknowledged it.
    pub acknowledged: bool,
}

/// The abstract content of one prediction.
#[verifier::ext_equal]
pub struct PredictionView {
    pub seq: u64,
    pub chars: Seq<u8>,
    pub position: (u16, u16),
    pub timestamp: u64,
    pub acknowledged: bool,
}

/// The abstract state of a predictive echo tracker.
#[verifier::ext_equal]
pub struct EchoView {
    pub client_id: Seq<char>,
    pub next_seq: u64,
    pub predictions: Seq<PredictionView>,
    pub timeout: u64,
}

/// Tracks predicted input and acknowledgments.
pub struct PredictiveEcho {
    client_id: String,
    next_seq: u64,
    predictions: Vec<(u64, PredictedChar)>,
    pub prediction_timeout_nanos: u64,
    epoch: Instant,
}

/// The sequence numbers of `preds`, in order.
pub open spec fn seqs_of(preds: Seq<PredictionView>) -> Seq<u64> {
    preds.map_values(|p: PredictionView| p.seq)
}

/// The predictions that satisfy `keep`, in order.
pub open spec fn kept(preds: Seq<PredictionView>, keep: spec_fn(PredictionView) -> bool) -> Seq<PredictionView> {
    preds.filter(keep)
}

/// Whether a prediction is still waiting for its acknowledgment.
pub open spec fn unacked(p: PredictionView) -> bool {
    !p.acknowledged
}

/// Whether a prediction made at `p.timestamp` is older than `timeout` at time `now`.
pub open spec fn expired(p: PredictionView, now: u64, timeout: u64) -> bool {
    (if now >= p.timestamp {
        now - p.timestamp
    } else {
        0
    }) > timeout
}

impl View for PredictiveEcho {
    type V = EchoView;

    closed spec fn view(&self) -> EchoView {
        EchoView {
            client_id: self.client_id@,
            next_seq: self.next_seq,
            predictions: Seq::new(
                self.predictions@.len(),
                |i: int|
                    PredictionView {
                        seq: self.predictions@[i].0,
                        chars: self.predictions@[i].1.chars@,
                        position: self.predictions@[i].1.position,
                        timestamp: self.predictions@[i].1.timestamp,
                        acknowledged: self.predictions@[i].1.acknowledged,
                    },
            ),
            timeout: self.prediction_timeout_nanos,
        }
    }
}

/// Sequence numbers strictly increase along the list and stay below `next`.
pub open spec fn seqs_ordered(preds: Seq<PredictionView>, next: u64) -> bool {
    &&& forall|i: int, j: int| 0 <= i < j < preds.len() ==> preds[i].seq < preds[j].seq
    &&& forall|i: int| 0 <= i < preds.len() ==> (#[trigger] preds[i]).seq < next
}

/// The predictions with the one numbered `client_seq` marked acknowledged.
pub open spec fn spec_acknowledge(preds: Seq<PredictionView>, client_seq: u64) -> Seq<PredictionView> {
    Seq::new(
        preds.len(),
        |i: int|
            if preds[i].seq == client_seq {
                PredictionView { acknowledged: true, ..preds[i] }
            } else {
                preds[i]
            },
    )
}

fn copy_bytes(v: &Vec<u8>) -> (res: Vec<u8>)
    ensures
        res@ == v@,
{
    let mut out: Vec<u8> = Vec::with_capacity(v.len());
    let mut i: usize = 0;
    while i < v.len()
        invariant
            i <= v@.len(),
            out@ == v@.subrange(0, i as int),
        decreases v@.len() - i,
    {
        out.push(v[i]);
        i = i + 1;
    }
    assert(out@ =~= v@);
    out
}

impl PredictiveEcho {
    /// The tracker's invariant: sequence numbers increase along the list,
    /// all below the next one to hand out, which is at least 1.
    pub open spec fn wf(&self) -> bool {
        &&& seqs_ordered(self@.predictions, self@.next_seq)
        &&& self@.next_seq >= 1
    }

    /// A tracker for client `client_id` with no predictions; sequence
    /// numbers start at 1 and predictions time out after 500 ms.
    pub fn new(client_id: String) -> (res: Self)
        ensures
            res.wf(),
            res@ == (EchoView {
                client_id: client_id@,
                next_seq: 1,
                predictions: Seq::empty(),
                timeout: DEFAULT_PREDICTION_TIMEOUT_NANOS,
            }),
    {
        let res = PredictiveEcho {
            client_id,
            next_seq: 1,
            predictions: Vec::new(),
            prediction_timeout_nanos: DEFAULT_PREDICTION_TIMEOUT_NANOS,
            epoch: instant_now(),
        };
        assert(res@.predictions =~= Seq::<PredictionView>::empty());
        res
    }

    /// Records a prediction for typed input at the current time and returns
    /// its sequence number.
    pub fn predict_input(&mut self, bytes: Vec<u8>, cursor_pos: (u16, u16)) -> (res: u64)
        requires
            old(self).wf(),
            old(self)@.next_seq < u64::MAX,
        ensures
            final(self).wf(),
            res == old(self)@.next_seq,
            final(self)@.next_seq == old(self)@.next_seq + 1,
            final(self)@.client_id == old(self)@.client_id,
            final(self)@.timeout == old(self)@.timeout,
            final(self)@.predictions.len() == old(self)@.predictions.len() + 1,
            final(self)@.predictions.drop_last() == old(self)@.predictions,
            ({
                let p = final(self)@.predictions.last();
                &&& p.seq == res
                &&& p.chars == bytes@
                &&& p.position == cursor_pos
                &&& !p.acknowledged
            }),
    {
        let now = nanos_since(&self.epoch);
        self.predict_input_at(bytes, cursor_pos, now)
    }

    /// Records a prediction for typed input made at time `now` (nanoseconds
    /// since the tracker was created) and returns its sequence number.
    pub fn predict_input_at(&mut self, bytes: Vec<u8>, cursor_pos: (u16, u16), now: u64) -> (res: u64)
        requires
            old(self).wf(),
            old(self)@.next_seq < u64::MAX,
        ensures
            final(self).wf(),
            res == old(self)@.next_seq,
            final(self)@ == (EchoView {
                next_seq: (old(self)@.next_seq + 1) as u64,
                predictions: old(self)@.predictions.push(
                    PredictionView {
                        seq: res,
                        chars: bytes@,
                        position: cursor_pos,
                        timestamp: now,
                        acknowledged: false,
                    },
                ),
                ..old(self)@
            }),
    {
        let seq = self.next_seq;
        self.next_seq = self.next_seq + 1;
        let prediction = PredictedChar {
            chars: copy_bytes(&bytes),
            position: cursor_pos,
            timestamp: now,
            acknowledged: false,
        };
        self.predictions.push((seq, prediction));
        assert(self@.predictions =~= old(self)@.predictions.push(
            PredictionView { seq, chars: bytes@, position: cursor_pos, timestamp: now, acknowledged: false },
        ));
        seq
    }

    /// The input message that carries prediction `seq`.
    pub fn create_input_message(&self, seq: u64, bytes: Vec<u8>) -> (res: ControlMessage)
        ensures
            res matches ControlMessage::Input { client_id, client_seq, bytes: b } && client_id@ == self@.client_id
                && client_seq == seq && b@ == bytes@,
    {
        ControlMessage::Input { client_id: self.client_id.clone(), client_seq: seq, bytes }
    }

    /// Marks prediction `client_seq` as acknowledged by the host.
    pub fn acknowledge(&mut self, client_seq: u64, _apply_seq: u64, _version: u64)
        requires
            old(self).wf(),
        ensures
            final(self).wf(),
            final(self)@ == (EchoView {
                predictions: spec_acknowledge(old(self)@.predictions, client_seq),
                ..old(self)@
            }),
    {
        let n = self.predictions.len();
        let mut i: usize = 0;
        while i < n
            invariant
                n == old(self)@.predictions.len(),
                i <= n,
                self@.predictions.len() == n,
                self@.client_id == old(self)@.client_id,
                self@.next_seq == old(self)@.next_seq,
                self@.timeout == old(self)@.timeout,
                forall|k: int|
                    0 <= k < n ==> #[trigger] self@.predictions[k] == (if k < i && old(self)@.predictions[k].seq
                        == client_seq {
                        PredictionView { acknowledged: true, ..old(self)@.predictions[k] }
                    } else {
                        old(self)@.predictions[k]
                    }),
            decreases n - i,
        {
            if self.predictions[i].0 == client_seq {
                let ghost before = self@.predictions;
                self.predictions[i].1.acknowledged = true;
                assert(self@.predictions =~= before.update(
                    i as int,
                    PredictionView { acknowledged: true, ..before[i as int] },
                ));
            }
            i = i + 1;
        }
        assert(self@ =~= EchoView { predictions: spec_acknowledge(old(self)@.predictions, client_seq), ..old(self)@ });
    }
}

/// The predictions still waiting for an acknowledgment.
pub open spec fn unacked_pred() -> spec_fn(PredictionView) -> bool {
    |p: PredictionView| !p.acknowledged
}

/// Whether an unacknowledged prediction sits at `pos`.
pub open spec fn underlined(preds: Seq<PredictionView>, pos: (u16, u16)) -> bool {
    exists|i: int| 0 <= i < preds.len() && !(#[trigger] preds[i]).acknowledged && preds[i].position == pos
}

/// The acknowledged predictions.
pub open spec fn acked_pred() -> spec_fn(PredictionView) -> bool {
    |p: PredictionView| p.acknowledged
}

/// The predictions older than `timeout` at time `now`.
pub open spec fn expired_pred(now: u64, timeout: u64) -> spec_fn(PredictionView) -> bool {
    |p: PredictionView| expired(p, now, timeout)
}

/// The predictions not older than `timeout` at time `now`.
pub open spec fn live_pred(now: u64, timeout: u64) -> spec_fn(PredictionView) -> bool {
    |p: PredictionView| !expired(p, now, timeout)
}

/// Filtering keeps the sequence numbers ordered.
pub proof fn lemma_filter_ordered(s: Seq<PredictionView>, f: spec_fn(PredictionView) -> bool, next: u64)
    requires
        seqs_ordered(s, next),
    ensures
        seqs_ordered(s.filter(f), next),
    decreases s.len(),
{
    reveal(Seq::filter);
    if s.len() > 0 {
        let rest = s.drop_last();
        lemma_filter_ordered(rest, f, next);
        let sub = rest.filter(f);
        if f(s.last()) {
            assert forall|i: int| 0 <= i < sub.len() implies (#[trigger] sub[i]).seq < s.last().seq by {
                assert(sub.contains(sub[i]));
                rest.lemma_filter_contains_rev(f, sub[i]);
                let j = choose|j: int| 0 <= j < rest.len() && rest[j] == sub[i];
                assert(s[j] == rest[j]);
            }
            let out = sub.push(s.last());
            assert forall|i: int, j: int| 0 <= i < j < out.len() implies out[i].seq < out[j].seq by {
                if j == out.len() - 1 {
                    assert(out[i] == sub[i]);
                }
            }
        }
    }
}

proof fn lemma_filter_take_step(s: Seq<PredictionView>, f: spec_fn(PredictionView) -> bool, i: int)
    requires
        0 <= i < s.len(),
    ensures
        s.take(i + 1).filter(f) == (if f(s[i]) {
            s.take(i).filter(f).push(s[i])
        } else {
            s.take(i).filter(f)
        }),
{
    reveal(Seq::filter);
    assert(s.take(i + 1).drop_last() =~= s.take(i));
    assert(s.take(i + 1).last() == s[i]);
}

impl PredictiveEcho {
    /// Drops the acknowledged predictions (`drop_acked`) or those expired at
    /// `now`, and returns the sequence numbers of the dropped ones, in order.
    fn retain_predictions(&mut self, drop_acked: bool, now: u64) -> (removed: Vec<u64>)
        requires
            old(self).wf(),
        ensures
            final(self).wf(),
            ({
                let drop_f = if drop_acked {
                    acked_pred()
                } else {
                    expired_pred(now, old(self)@.timeout)
                };
                let keep_f = if drop_acked {
                    unacked_pred()
                } else {
                    live_pred(now, old(self)@.timeout)
                };
                &&& final(self)@ == (EchoView { predictions: old(self)@.predictions.filter(keep_f), ..old(self)@ })
                &&& removed@ == seqs_of(old(self)@.predictions.filter(drop_f))
            }),
    {
        let ghost drop_f = if drop_acked {
            acked_pred()
        } else {
            expired_pred(now, old(self)@.timeout)
        };
        let ghost keep_f = if drop_acked {
            unacked_pred()
        } else {
            live_pred(now, old(self)@.timeout)
        };
        let ghost old_preds = self@.predictions;
        let timeout = self.prediction_timeout_nanos;
        let mut kept: Vec<(u64, PredictedChar)> = Vec::new();
        let mut removed: Vec<u64> = Vec::new();
        let n = self.predictions.len();
        let mut i: usize = 0;
        while i < n
            invariant
                n == old_preds.len(),
                old_preds == old(self)@.predictions,
                self@ == old(self)@,
                timeout == old(self)@.timeout,
                drop_f == (if drop_acked {
                    acked_pred()
                } else {
                    expired_pred(now, old(self)@.timeout)
                }),
                keep_f == (if drop_acked {
                    unacked_pred()
                } else {
                    live_pred(now, old(self)@.timeout)
                }),
                i <= n,
                Seq::new(
                    kept@.len(),
                    |k: int|
                        PredictionView {
                            seq: kept@[k].0,
                            chars: kept@[k].1.chars@,
                            position: kept@[k].1.position,
                            timestamp: kept@[k].1.timestamp,
                            acknowledged: kept@[k].1.acknowledged,
                        },
                ) == old_preds.take(i as int).filter(keep_f),
                removed@ == seqs_of(old_preds.take(i as int).filter(drop_f)),
            decreases n - i,
        {
            let ghost kept_view = Seq::new(
                kept@.len(),
                |k: int|
                    PredictionView {
                        seq: kept@[k].0,
                        chars: kept@[k].1.chars@,
                        position: kept@[k].1.position,
                        timestamp: kept@[k].1.timestamp,
                        acknowledged: kept@[k].1.acknowledged,
                    },
            );
            let seq = self.predictions[i].0;
            let pred = &self.predictions[i].1;
            let drop_it = if drop_acked {
                pred.acknowledged
            } else {
                let elapsed = if now >= pred.timestamp {
                    now - pred.timestamp
                } else {
                    0
                };
                elapsed > timeout
            };
            proof {
                lemma_filter_take_step(old_preds, keep_f, i as int);
                lemma_filter_take_step(old_preds, drop_f, i as int);
                assert(drop_it == drop_f(old_preds[i as int]));
                assert(!drop_it == keep_f(old_preds[i as int]));
            }
            if drop_it {
                removed.push(seq);
                proof {
                    assert(seqs_of(old_preds.take(i + 1).filter(drop_f)) =~= seqs_of(
                        old_preds.take(i as int).filter(drop_f),
                    ).push(seq));
                }
            } else {
                let copy = PredictedChar {
                    chars: copy_bytes(&pred.chars),
                    position: pred.position,
                    timestamp: pred.timestamp,
                    acknowledged: pred.acknowledged,
                };
                kept.push((seq, copy));
                proof {
                    assert(Seq::new(
                        kept@.len(),
                        |k: int|
                            PredictionView {
                                seq: kept@[k].0,
                                chars: kept@[k].1.chars@,
                                position: kept@[k].1.position,
                                timestamp: kept@[k].1.timestamp,
                                acknowledged: kept@[k].1.acknowledged,
                            },
                    ) =~= kept_view.push(old_preds[i as int]));
                }
            }
            i = i + 1;
        }
        proof {
            assert(old_preds.take(n as int) =~= old_preds);
            lemma_filter_ordered(old_preds, keep_f, self.next_seq);
        }
        self.predictions = kept;
        assert(self@ =~= EchoView { predictions: old(self)@.predictions.filter(keep_f), ..old(self)@ });
        removed
    }

    /// Drops the acknowledged predictions and returns their sequence
    /// numbers, oldest first.
    pub fn remove_acknowledged(&mut self) -> (removed: Vec<u64>)
        requires
            old(self).wf(),
        ensures
            final(self).wf(),
            final(self)@ == (EchoView {
                predictions: old(self)@.predictions.filter(unacked_pred()),
                ..old(self)@
            }),
            removed@ == seqs_of(old(self)@.predictions.filter(acked_pred())),
    {
        self.retain_predictions(true, 0)
    }

    /// Drops the predictions older than the timeout at the current time and
    /// returns their sequence numbers, oldest first.
    pub fn remove_timed_out(&mut self) -> (removed: Vec<u64>)
        requires
            old(self).wf(),
        ensures
            final(self).wf(),
            exists|now: u64|
                {
                    &&& final(self)@ == (EchoView {
                        predictions: old(self)@.predictions.filter(live_pred(now, old(self)@.timeout)),
                        ..old(self)@
                    })
                    &&& removed@ == seqs_of(old(self)@.predictions.filter(expired_pred(now, old(self)@.timeout)))
                },
    {
        let now = nanos_since(&self.epoch);
        self.remove_timed_out_at(now)
    }

    /// Drops the predictions older than the timeout at time `now`
    /// (nanoseconds since the tracker was created) and returns their
    /// sequence numbers, oldest first. A prediction stamped after `now` has
    /// age zero.
    pub fn remove_timed_out_at(&mut self, now: u64) -> (removed: Vec<u64>)
        requires
            old(self).wf(),
        ensures
            final(self).wf(),
            final(self)@ == (EchoView {
                predictions: old(self)@.predictions.filter(live_pred(now, old(self)@.timeout)),
                ..old(self)@
            }),
            removed@ == seqs_of(old(self)@.predictions.filter(expired_pred(now, old(self)@.timeout))),
    {
        self.retain_predictions(false, now)
    }

    /// The predictions not yet acknowledged, with their sequence numbers,
    /// oldest first.
    pub fn active_predictions(&self) -> (res: Vec<(u64, &PredictedChar)>)
        requires
            self.wf(),
        ensures
            Seq::new(
                res@.len(),
                |k: int|
                    PredictionView {
                        seq: res@[k].0,
                        chars: res@[k].1.chars@,
                        position: res@[k].1.position,
                        timestamp: res@[k].1.timestamp,
                        acknowledged: res@[k].1.acknowledged,
                    },
            ) == self@.predictions.filter(unacked_pred()),
    {
        let ghost f = unacked_pred();
        let ghost preds = self@.predictions;
        let mut res: Vec<(u64, &PredictedChar)> = Vec::new();
        let n = self.predictions.len();
        let mut i: usize = 0;
        while i < n
            invariant
                n == preds.len(),
                preds == self@.predictions,
                f == unacked_pred(),
                i <= n,
                Seq::new(
                    res@.len(),
                    |k: int|
                        PredictionView {
                            seq: res@[k].0,
                            chars: res@[k].1.chars@,
                            position: res@[k].1.position,
                            timestamp: res@[k].1.timestamp,
                            acknowledged: res@[k].1.acknowledged,
                        },
                ) == preds.take(i as int).filter(f),
            decreases n - i,
        {
            let ghost before = Seq::new(
                res@.len(),
                |k: int|
                    PredictionView {
                        seq: res@[k].0,
                        chars: res@[k].1.chars@,
                        position: res@[k].1.position,
                        timestamp: res@[k].1.timestamp,
                        acknowledged: res@[k].1.acknowledged,
                    },
            );
            proof {
                lemma_filter_take_step(preds, f, i as int);
            }
            let entry = &self.predictions[i];
            if !entry.1.acknowledged {
                res.push((entry.0, &entry.1));
                proof {
                    assert(Seq::new(
                        res@.len(),
                        |k: int|
                            PredictionView {
                                seq: res@[k].0,
                                chars: res@[k].1.chars@,
                                position: res@[k].1.position,
                                timestamp: res@[k].1.timestamp,
                                acknowledged: res@[k].1.acknowledged,
                            },
                    ) =~= before.push(preds[i as int]));
                }
            }
            i = i + 1;
        }
        assert(preds.take(n as int) =~= preds);
        res
    }

    /// Whether an unacknowledged prediction sits at `pos`, so the cell there
    /// should be drawn underlined.
    pub fn should_underline(&self, pos: (u16, u16)) -> (res: bool)
        ensures
            res == underlined(self@.predictions, pos),
    {
        let n = self.predictions.len();
        let mut i: usize = 0;
        while i < n
            invariant
                n == self@.predictions.len(),
                i <= n,
                forall|k: int|
                    0 <= k < i ==> !(!(#[trigger] self@.predictions[k]).acknowledged
                        && self@.predictions[k].position == pos),
            decreases n - i,
        {
            let pred = &self.predictions[i].1;
            if !pred.acknowledged && pred.position.0 == pos.0 && pred.position.1 == pos.1 {
                assert(self@.predictions[i as int].position == pos);
                return true;
            }
            i = i + 1;
        }
        false
    }

    /// Forgets every prediction (for example on disconnect).
    pub fn clear(&mut self)
        requires
            old(self).wf(),
        ensures
            final(self).wf(),
            final(self)@ == (EchoView { predictions: Seq::empty(), ..old(self)@ }),
    {
        self.predictions = Vec::new();
        assert(self@ =~= EchoView { predictions: Seq::empty(), ..old(self)@ });
    }

    /// The unacknowledged predictions, oldest first, as (sequence, bytes)
    /// pairs to send again after a reconnect.
    pub fn queue_for_replay(&self) -> (res: Vec<(u64, Vec<u8>)>)
        requires
            self.wf(),
        ensures
            Seq::new(res@.len(), |k: int| (res@[k].0, res@[k].1@)) == self@.predictions.filter(
                unacked_pred(),
            ).map_values(|p: PredictionView| (p.seq, p.chars)),
    {
        let ghost f = unacked_pred();
        let ghost preds = self@.predictions;
        let ghost g = |p: PredictionView| (p.seq, p.chars);
        let mut res: Vec<(u64, Vec<u8>)> = Vec::new();
        let n = self.predictions.len();
        let mut i: usize = 0;
        while i < n
            invariant
                n == preds.len(),
                preds == self@.predictions,
                f == unacked_pred(),
                g == (|p: PredictionView| (p.seq, p.chars)),
                i <= n,
                Seq::new(res@.len(), |k: int| (res@[k].0, res@[k].1@)) == preds.take(i as int).filter(f).map_values(g),
            decreases n - i,
        {
            let ghost before = Seq::new(res@.len(), |k: int| (res@[k].0, res@[k].1@));
            proof {
                lemma_filter_take_step(preds, f, i as int);
            }
            let entry = &self.predictions[i];
            if !entry.1.acknowledged {
                res.push((entry.0, copy_bytes(&entry.1.chars)));
                proof {
                    assert(preds.take(i + 1).filter(f).map_values(g) =~= preds.take(i as int).filter(f).map_values(
                        g,
                    ).push(g(preds[i as int])));
                    assert(Seq::new(res@.len(), |k: int| (res@[k].0, res@[k].1@)) =~= before.push(
                        g(preds[i as int]),
                    ));
                }
            }
            i = i + 1;
        }
        assert(preds.take(n as int) =~= preds);
        res
    }
}

/// Once prediction `s` is acknowledged, removing the acknowledged
/// predictions reports `s` (if it was tracked) and leaves no prediction
/// numbered `s`; the unacknowledged ones stay, in order.
pub proof fn law_acknowledge_then_remove(preds: Seq<PredictionView>, s: u64)
    ensures
        ({
            let after = spec_acknowledge(preds, s);
            &&& forall|i: int| 0 <= i < after.filter(unacked_pred()).len() ==> (#[trigger] after.filter(
                unacked_pred(),
            )[i]).seq != s
            &&& (exists|i: int| 0 <= i < preds.len() && (#[trigger] preds[i]).seq == s) ==> seqs_of(
                after.filter(acked_pred()),
            ).contains(s)
        }),
{
    let after = spec_acknowledge(preds, s);
    let kept = after.filter(unacked_pred());
    broadcast use vstd::seq_lib::group_filter_ensures;

    assert forall|i: int| 0 <= i < kept.len() implies (#[trigger] kept[i]).seq != s by {
        assert(kept.contains(kept[i]));
        after.lemma_filter_contains_rev(unacked_pred(), kept[i]);
    }
    if exists|i: int| 0 <= i < preds.len() && (#[trigger] preds[i]).seq == s {
        let i = choose|i: int| 0 <= i < preds.len() && (#[trigger] preds[i]).seq == s;
        assert(acked_pred()(after[i]));
        assert(after.filter(acked_pred()).contains(after[i]));
        let j = choose|j: int| 0 <= j < after.filter(acked_pred()).len() && after.filter(acked_pred())[j] == after[i];
        assert(seqs_of(after.filter(acked_pred()))[j] == s);
    }
}

/// A new prediction is underlined at its position until acknowledged: right
/// after it is made, an unacknowledged prediction sits at that position.
pub proof fn law_new_prediction_underlined(
    preds: Seq<PredictionView>,
    seq: u64,
    chars: Seq<u8>,
    pos: (u16, u16),
    now: u64,
)
    ensures
        ({
            let after = preds.push(
                PredictionView { seq, chars, position: pos, timestamp: now, acknowledged: false },
            );
            exists|i: int| 0 <= i < after.len() && !(#[trigger] after[i]).acknowledged && after[i].position == pos
        }),
{
    let after = preds.push(PredictionView { seq, chars, position: pos, timestamp: now, acknowledged: false });
    assert(!after[preds.len() as int].acknowledged);
}


/// Clearing forgets every prediction and reuses no sequence number: nothing
/// is active, left to replay or acknowledged, no position is underlined,
/// the next prediction gets the number it would have got before, and that
/// number is above every number handed out before.
pub proof fn law_clear_forgets_predictions(e: EchoView)
    requires
        seqs_ordered(e.predictions, e.next_seq),
    ensures
        ({
            let after = EchoView { predictions: Seq::empty(), ..e };
            &&& after.predictions.filter(unacked_pred()).len() == 0
            &&& after.predictions.filter(unacked_pred()).map_values(|p: PredictionView| (p.seq, p.chars)).len() == 0
            &&& seqs_of(after.predictions.filter(acked_pred())).len() == 0
            &&& forall|pos: (u16, u16)| !#[trigger] underlined(after.predictions, pos)
            &&& after.next_seq == e.next_seq
            &&& forall|i: int| 0 <= i < e.predictions.len() ==> (#[trigger] e.predictions[i]).seq < after.next_seq
        }),
{
    let empty = Seq::<PredictionView>::empty();
    assert(empty.filter(unacked_pred()) =~= empty) by {
        reveal_with_fuel(Seq::<PredictionView>::filter, 1);
    }
    assert(empty.filter(acked_pred()) =~= empty) by {
        reveal_with_fuel(Seq::<PredictionView>::filter, 1);
    }
}

} // verus!

use vstd::prelude::*;

use crate::span::{elapsed, elapsed_nanos, DogSpan};

verus! {

/// Minimum time between two flushes, in nanoseconds.
pub const FLUSH_WINDOW_NANOS: u64 = 5_000_000_000;

/// How many completed spans may wait in the hand-off to the batcher.
pub const CHANNEL_CAPACITY: usize = 1024;

/// The contents of a list of trace batches.
pub open spec fn batch_views(v: Seq<Vec<DogSpan>>) -> Seq<Seq<DogSpan>> {
    v.map_values(|b: Vec<DogSpan>| b@)
}

/// Each batch is non-empty, holds spans of one trace only, and no two
/// batches share a trace.
pub open spec fn grouped(bs: Seq<Seq<DogSpan>>) -> bool {
    &&& forall|i: int| 0 <= i < bs.len() ==> #[trigger] bs[i].len() > 0
    &&& forall|i: int, j: int|
        0 <= i < bs.len() && 0 <= j < bs[i].len() ==> #[trigger] bs[i][j].trace_id == bs[i][0].trace_id
    &&& forall|i: int, k: int|
        0 <= i < bs.len() && 0 <= k < bs.len() && i != k ==> #[trigger] bs[i][0].trace_id
            != #[trigger] bs[k][0].trace_id
}

/// Some batch holds trace `t`.
pub open spec fn has_batch(bs: Seq<Seq<DogSpan>>, t: u64) -> bool {
    exists|i: int| 0 <= i < bs.len() && #[trigger] bs[i][0].trace_id == t
}

/// The position of the batch that holds trace `t`.
pub open spec fn batch_index(bs: Seq<Seq<DogSpan>>, t: u64) -> int {
    choose|i: int| 0 <= i < bs.len() && #[trigger] bs[i][0].trace_id == t
}

/// The batches after span `s` arrives: appended to its trace's batch, or
/// opening a new batch at the end.
pub open spec fn pushed(bs: Seq<Seq<DogSpan>>, s: DogSpan) -> Seq<Seq<DogSpan>> {
    if has_batch(bs, s.trace_id) {
        let i = batch_index(bs, s.trace_id);
        bs.update(i, bs[i].push(s))
    } else {
        bs.push(seq![s])
    }
}

/// A flush is due when more than the window has passed since the last one
/// and something is waiting.
pub open spec fn flush_due(last: u64, now: u64, pending: Seq<Seq<DogSpan>>) -> bool {
    elapsed(last, now) > FLUSH_WINDOW_NANOS && pending.len() > 0
}

/// What the batcher's wait ended with.
pub enum ShipperEvent {
    /// A completed span arrived.
    Received(DogSpan),
    /// The window passed with no arrival.
    TimedOut,
    /// The hand-off was closed with nothing delivered.
    Closed,
}

/// What the batcher's loop does next.
pub enum ShipperAction {
    /// End the loop; whatever is waiting is not sent.
    Stop,
    /// Wait for the next event.
    Wait,
    /// Send these batches, then wait for the next event.
    Flush(Vec<Vec<DogSpan>>),
}

/// The waiting batches once `event` is taken in.
pub open spec fn after_event(bs: Seq<Seq<DogSpan>>, event: ShipperEvent) -> Seq<Seq<DogSpan>> {
    match event {
        ShipperEvent::Received(s) => pushed(bs, s),
        _ => bs,
    }
}

/// The batches an action sends, if it sends any.
pub open spec fn flushed(a: ShipperAction) -> Option<Seq<Seq<DogSpan>>> {
    match a {
        ShipperAction::Flush(b) => Some(batch_views(b@)),
        _ => None,
    }
}

/// One turn of the batcher on waiting batches `pending` and last flush time
/// `last`: the batches and flush time after it, and what it sends. A closed
/// hand-off changes nothing and sends nothing.
pub open spec fn step_model(
    pending: Seq<Seq<DogSpan>>,
    last: u64,
    event: ShipperEvent,
    now: u64,
) -> (Seq<Seq<DogSpan>>, u64, Option<Seq<Seq<DogSpan>>>) {
    match event {
        ShipperEvent::Closed => (pending, last, None),
        _ => {
            let p = after_event(pending, event);
            if flush_due(last, now, p) {
                (Seq::empty(), now, Some(p))
            } else {
                (p, last, None)
            }
        },
    }
}

/// Completed spans waiting to be shipped, grouped by trace, and the time of
/// the last flush (nanoseconds on a monotonic clock).
pub struct TraceBatcher {
    traces: Vec<Vec<DogSpan>>,
    last_shipment: u64,
}

impl TraceBatcher {
    /// The waiting batches, in the order their traces first arrived.
    pub closed spec fn pending(&self) -> Seq<Seq<DogSpan>> {
        batch_views(self.traces@)
    }

    /// When the last flush happened.
    pub closed spec fn last_shipment(&self) -> u64 {
        self.last_shipment
    }

    /// The waiting batches are grouped by trace.
    pub open spec fn wf(&self) -> bool {
        grouped(self.pending())
    }

    /// An empty batcher whose window starts at `now`.
    pub fn new(now: u64) -> (r: TraceBatcher)
        ensures
            r.wf(),
            r.pending() == Seq::<Seq<DogSpan>>::empty(),
            r.last_shipment() == now,
    {
        let r = TraceBatcher { traces: Vec::new(), last_shipment: now };
        assert(r.pending() =~= Seq::<Seq<DogSpan>>::empty());
        r
    }

    /// Whether nothing is waiting.
    pub fn is_empty(&self) -> (r: bool)
        ensures
            r == (self.pending().len() == 0),
    {
        self.traces.len() == 0
    }

    /// The position of the batch of trace `t`, if there is one.
    fn find_batch(&self, t: u64) -> (r: Option<usize>)
        requires
            self.wf(),
        ensures
            match r {
                Some(i) => i < self.pending().len() && self.pending()[i as int][0].trace_id == t,
                None => !has_batch(self.pending(), t),
            },
    {
        let n = self.traces.len();
        let mut i: usize = 0;
        while i < n
            invariant
                self.wf(),
                n == self.traces.len(),
                0 <= i <= n,
                forall|k: int| 0 <= k < i ==> #[trigger] self.pending()[k][0].trace_id != t,
            decreases n - i,
        {
            assert(self.pending()[i as int] == self.traces@[i as int]@);
            assert(self.pending()[i as int].len() > 0);
            if self.traces[i][0].trace_id == t {
                return Some(i);
            }
            i = i + 1;
        }
        None
    }

    /// Adds a completed span to its trace's batch.
    pub fn push(&mut self, span: DogSpan)
        requires
            old(self).wf(),
        ensures
            final(self).wf(),
            final(self).pending() == pushed(old(self).pending(), span),
            final(self).last_shipment() == old(self).last_shipment(),
    {
        let ghost t = span.trace_id;
        let ghost bs = self.pending();
        match self.find_batch(span.trace_id) {
            Some(i) => {
                let mut batch = self.traces.remove(i);
                batch.push(span);
                self.traces.insert(i, batch);
                assert(has_batch(bs, t));
                assert(batch_index(bs, t) == i);
                assert(self.pending() =~= bs.update(i as int, bs[i as int].push(span)));
                assert forall|a: int, b: int|
                    0 <= a < self.pending().len() && 0 <= b < self.pending()[a].len() implies
                    #[trigger] self.pending()[a][b].trace_id == self.pending()[a][0].trace_id by {
                    if a != i {
                        assert(self.pending()[a] == bs[a]);
                    }
                }
            },
            None => {
                let mut batch = Vec::new();
                batch.push(span);
                self.traces.push(batch);
                assert(self.pending() =~= bs.push(seq![span]));
                assert forall|a: int, k: int|
                    0 <= a < self.pending().len() && 0 <= k < self.pending().len() && a != k implies
                    #[trigger] self.pending()[a][0].trace_id != #[trigger] self.pending()[k][0].trace_id by {
                    if a == bs.len() {
                        assert(bs[k][0].trace_id != t);
                    } else if k == bs.len() {
                        assert(bs[a][0].trace_id != t);
                    }
                }
            },
        }
    }

    /// Hands over every waiting batch and restarts the window at `now` when a
    /// flush is due; otherwise changes nothing.
    pub fn ship(&mut self, now: u64) -> (r: Option<Vec<Vec<DogSpan>>>)
        requires
            old(self).wf(),
        ensures
            final(self).wf(),
            flush_due(old(self).last_shipment(), now, old(self).pending()) ==> {
                &&& r is Some
                &&& batch_views(r->Some_0@) == old(self).pending()
                &&& final(self).pending() == Seq::<Seq<DogSpan>>::empty()
                &&& final(self).last_shipment() == now
            },
            !flush_due(old(self).last_shipment(), now, old(self).pending()) ==> {
                &&& r is None
                &&& final(self).pending() == old(self).pending()
                &&& final(self).last_shipment() == old(self).last_shipment()
            },
    {
        if elapsed_nanos(self.last_shipment, now) > FLUSH_WINDOW_NANOS && self.traces.len() > 0 {
            let mut traces = Vec::new();
            std::mem::swap(&mut traces, &mut self.traces);
            self.last_shipment = now;
            assert(self.pending() =~= Seq::<Seq<DogSpan>>::empty());
            Some(traces)
        } else {
            None
        }
    }

    /// One turn of the batcher's loop: takes in what the wait ended with at
    /// time `now`, and says whether to stop, wait again, or send batches.
    pub fn step(&mut self, event: ShipperEvent, now: u64) -> (r: ShipperAction)
        requires
            old(self).wf(),
        ensures
            final(self).wf(),
            (event is Closed) == (r is Stop),
            (final(self).pending(), final(self).last_shipment(), flushed(r)) == step_model(
                old(self).pending(),
                old(self).last_shipment(),
                event,
                now,
            ),
    {
        match event {
            ShipperEvent::Received(span) => self.push(span),
            ShipperEvent::TimedOut => {},
            ShipperEvent::Closed => {
                return ShipperAction::Stop;
            },
        }
        match self.ship(now) {
            Some(batches) => ShipperAction::Flush(batches),
            None => ShipperAction::Wait,
        }
    }
}

/// The batches after `spans` arrive in order on top of `bs`.
pub open spec fn pushed_all(bs: Seq<Seq<DogSpan>>, spans: Seq<DogSpan>) -> Seq<Seq<DogSpan>>
    decreases spans.len(),
{
    if spans.len() == 0 {
        bs
    } else {
        pushed(pushed_all(bs, spans.drop_last()), spans.last())
    }
}

/// Whether a span belongs to trace `t`.
pub open spec fn in_trace(t: u64) -> spec_fn(DogSpan) -> bool {
    |s: DogSpan| s.trace_id == t
}

/// Spans `spans` received at times `times` by a batcher that starts with
/// `pending` and last flush `last`: the batches and flush time after them,
/// and every set of batches sent on the way.
pub open spec fn receive_all(
    pending: Seq<Seq<DogSpan>>,
    last: u64,
    spans: Seq<DogSpan>,
    times: Seq<u64>,
) -> (Seq<Seq<DogSpan>>, u64, Seq<Seq<Seq<DogSpan>>>)
    decreases spans.len(),
{
    if spans.len() == 0 || times.len() == 0 {
        (pending, last, Seq::empty())
    } else {
        let prev = receive_all(pending, last, spans.drop_last(), times.drop_last());
        let turn = step_model(prev.0, prev.1, ShipperEvent::Received(spans.last()), times.last());
        (
            turn.0,
            turn.1,
            match turn.2 {
                Some(b) => prev.2.push(b),
                None => prev.2,
            },
        )
    }
}

/// A burst of spans that all arrive within the window after the last flush
/// on an empty batcher causes no flush; the first tick after the window
/// sends them all, in one flush, grouped as `pushed_all` groups them.
pub proof fn lemma_burst_single_flush(last: u64, spans: Seq<DogSpan>, times: Seq<u64>, end: u64)
    requires
        spans.len() == times.len(),
        spans.len() > 0,
        forall|k: int| 0 <= k < times.len() ==> #[trigger] times[k] <= last + FLUSH_WINDOW_NANOS,
        end > last + FLUSH_WINDOW_NANOS,
    ensures
        receive_all(Seq::empty(), last, spans, times) == (
            pushed_all(Seq::empty(), spans),
            last,
            Seq::<Seq<Seq<DogSpan>>>::empty(),
        ),
        step_model(pushed_all(Seq::empty(), spans), last, ShipperEvent::TimedOut, end) == (
            Seq::<Seq<DogSpan>>::empty(),
            end,
            Some(pushed_all(Seq::empty(), spans)),
        ),
{
    lemma_burst_quiet(last, spans, times);
    lemma_pushed_all_nonempty(spans);
}

proof fn lemma_burst_quiet(last: u64, spans: Seq<DogSpan>, times: Seq<u64>)
    requires
        spans.len() == times.len(),
        forall|k: int| 0 <= k < times.len() ==> #[trigger] times[k] <= last + FLUSH_WINDOW_NANOS,
    ensures
        receive_all(Seq::empty(), last, spans, times) == (
            pushed_all(Seq::empty(), spans),
            last,
            Seq::<Seq<Seq<DogSpan>>>::empty(),
        ),
    decreases spans.len(),
{
    if spans.len() > 0 {
        let dt = times.drop_last();
        assert forall|k: int| 0 <= k < dt.len() implies #[trigger] dt[k] <= last
            + FLUSH_WINDOW_NANOS by {
            assert(dt[k] == times[k]);
        }
        lemma_burst_quiet(last, spans.drop_last(), dt);
        assert(times.last() == times[times.len() - 1]);
    }
}

proof fn lemma_pushed_all_nonempty(spans: Seq<DogSpan>)
    requires
        spans.len() > 0,
    ensures
        pushed_all(Seq::empty(), spans).len() > 0,
    decreases spans.len(),
{
    if spans.len() > 1 {
        lemma_pushed_all_nonempty(spans.drop_last());
    }
}

/// Spans arriving on an empty batcher are grouped by trace: one batch per
/// trace that occurs, each holding exactly that trace's spans in arrival
/// order.
pub proof fn lemma_burst_grouped(spans: Seq<DogSpan>)
    ensures
        grouped(pushed_all(Seq::empty(), spans)),
        forall|i: int|
            0 <= i < pushed_all(Seq::empty(), spans).len() ==> #[trigger] pushed_all(
                Seq::empty(),
                spans,
            )[i] == spans.filter(in_trace(pushed_all(Seq::empty(), spans)[i][0].trace_id)),
        forall|j: int|
            0 <= j < spans.len() ==> has_batch(
                pushed_all(Seq::empty(), spans),
                #[trigger] spans[j].trace_id,
            ),
    decreases spans.len(),
{
    let bs = pushed_all(Seq::empty(), spans);
    if spans.len() == 0 {
        return;
    }
    let prev = spans.drop_last();
    let s = spans.last();
    let t = s.trace_id;
    lemma_burst_grouped(prev);
    let pbs = pushed_all(Seq::empty(), prev);
    assert(prev.push(s) =~= spans);
    assert forall|u: u64| #[trigger] spans.filter(in_trace(u)) == (if u == t {
        prev.filter(in_trace(u)).push(s)
    } else {
        prev.filter(in_trace(u))
    }) by {
        prev.lemma_filter_push(s, in_trace(u));
    }
    if has_batch(pbs, t) {
        let i = batch_index(pbs, t);
        assert(bs == pbs.update(i, pbs[i].push(s)));
        assert forall|a: int, b: int|
            0 <= a < bs.len() && 0 <= b < bs[a].len() implies #[trigger] bs[a][b].trace_id
            == bs[a][0].trace_id by {
            if a != i {
                assert(bs[a] == pbs[a]);
            }
        }
        assert forall|a: int| 0 <= a < bs.len() implies #[trigger] bs[a] == spans.filter(
            in_trace(bs[a][0].trace_id),
        ) by {
            if a == i {
                assert(bs[a][0] == pbs[a][0]);
            } else {
                assert(bs[a] == pbs[a]);
            }
        }
        assert forall|j: int| 0 <= j < spans.len() implies has_batch(
            bs,
            #[trigger] spans[j].trace_id,
        ) by {
            if j < prev.len() {
                assert(spans[j] == prev[j]);
                let k = batch_index(pbs, prev[j].trace_id);
                assert(bs[k][0] == pbs[k][0]);
            } else {
                assert(bs[i][0] == pbs[i][0]);
            }
        }
    } else {
        assert(bs == pbs.push(seq![s]));
        assert forall|j: int| 0 <= j < prev.len() implies !in_trace(t)(#[trigger] prev[j]) by {
            assert(has_batch(pbs, prev[j].trace_id));
        }
        prev.lemma_all_neg_filter_empty(in_trace(t));
        assert(prev.filter(in_trace(t)) =~= Seq::<DogSpan>::empty());
        assert(spans.filter(in_trace(t)) =~= seq![s]);
        assert forall|a: int, k: int|
            0 <= a < bs.len() && 0 <= k < bs.len() && a != k implies #[trigger] bs[a][0].trace_id
            != #[trigger] bs[k][0].trace_id by {
            if a == pbs.len() {
                assert(pbs[k][0].trace_id != t);
            } else if k == pbs.len() {
                assert(pbs[a][0].trace_id != t);
            }
        }
        assert forall|a: int| 0 <= a < bs.len() implies #[trigger] bs[a] == spans.filter(
            in_trace(bs[a][0].trace_id),
        ) by {
            if a < pbs.len() {
                assert(bs[a] == pbs[a]);
            }
        }
        assert forall|j: int| 0 <= j < spans.len() implies has_batch(
            bs,
            #[trigger] spans[j].trace_id,
        ) by {
            if j < prev.len() {
                assert(spans[j] == prev[j]);
                let k = batch_index(pbs, prev[j].trace_id);
                assert(bs[k] == pbs[k]);
            } else {
                assert(bs[pbs.len() as int][0] == s);
            }
        }
    }
}

} // verus!

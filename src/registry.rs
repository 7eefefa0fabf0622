use std::collections::HashMap;
use vstd::prelude::*;

use crate::correlation::{random_trace_id, resolve, resolve_spec};
use crate::span::{elapsed, elapsed_nanos, is_fresh_span, DogSpan, SpanType};

verus! {

broadcast use vstd::std_specs::hash::group_hash_axioms;

/// The trace id of the open span `parent`, if there is one.
pub open spec fn parent_trace(open: Map<u64, DogSpan>, parent: Option<u64>) -> Option<u64> {
    match parent {
        Some(p) => if open.contains_key(p) {
            Some(open[p].trace_id)
        } else {
            None
        },
        None => None,
    }
}

/// The open spans after an enter event on `id` at time `now`.
pub open spec fn entered(open: Map<u64, DogSpan>, id: u64, now: u64) -> Map<u64, DogSpan> {
    if open.contains_key(id) {
        open.insert(id, DogSpan { start: now, ..open[id] })
    } else {
        open
    }
}

/// The span `s` completed at time `now`.
pub open spec fn finished(s: DogSpan, now: u64) -> DogSpan {
    DogSpan { duration: elapsed(s.start, now), ..s }
}

/// What an exit event on `id` at time `now` hands off.
pub open spec fn exit_result(open: Map<u64, DogSpan>, id: u64, now: u64) -> Option<DogSpan> {
    if open.contains_key(id) {
        Some(finished(open[id], now))
    } else {
        None
    }
}

/// The table of open (in-flight) spans, keyed by span id.
pub struct SpanRegistry {
    spans: HashMap<u64, DogSpan>,
}

impl View for SpanRegistry {
    type V = Map<u64, DogSpan>;

    closed spec fn view(&self) -> Map<u64, DogSpan> {
        self.spans@
    }
}

impl SpanRegistry {
    /// An empty registry.
    pub fn new() -> (r: SpanRegistry)
        ensures
            r@ == Map::<u64, DogSpan>::empty(),
    {
        SpanRegistry { spans: HashMap::new() }
    }

    /// Whether span `id` is open.
    pub fn contains(&self, id: u64) -> (r: bool)
        ensures
            r == self@.contains_key(id),
    {
        self.spans.contains_key(&id)
    }

    /// The start time of open span `id`.
    pub fn start_of(&self, id: u64) -> (r: Option<u64>)
        ensures
            r == (if self@.contains_key(id) {
                Some(self@[id].start)
            } else {
                None::<u64>
            }),
    {
        match self.spans.get(&id) {
            Some(s) => Some(s.start),
            None => None,
        }
    }

    /// The trace id of `parent`, when it names an open span.
    pub fn trace_of(&self, parent: Option<u64>) -> (r: Option<u64>)
        ensures
            r == parent_trace(self@, parent),
    {
        match parent {
            Some(p) => match self.spans.get(&p) {
                Some(s) => Some(s.trace_id),
                None => None,
            },
            None => None,
        }
    }

    /// Opens span `id`, with `fresh` as the trace id to use when neither an
    /// open parent nor an explicit trace id decides it. A reused id is
    /// overwritten.
    pub fn create_with(
        &mut self,
        id: u64,
        parent_id: Option<u64>,
        explicit_trace_id: Option<u64>,
        fresh: u64,
        name: &str,
        service: &str,
        resource: &str,
        span_type: SpanType,
    )
        ensures
            final(self)@ == old(self)@.insert(id, final(self)@[id]),
            is_fresh_span(
                final(self)@[id],
                name@,
                parent_id,
                resource@,
                service@,
                id,
                resolve_spec(parent_trace(old(self)@, parent_id), explicit_trace_id, fresh),
                span_type,
            ),
    {
        let trace_id = resolve(self.trace_of(parent_id), explicit_trace_id, fresh);
        let mut span = DogSpan::new(name, parent_id, resource, service, id, 0, trace_id);
        span.span_type = span_type;
        self.spans.insert(id, span);
    }

    /// Opens span `id`, drawing a random trace id where neither an open
    /// parent nor an explicit trace id decides it.
    pub fn create(
        &mut self,
        id: u64,
        parent_id: Option<u64>,
        explicit_trace_id: Option<u64>,
        name: &str,
        service: &str,
        resource: &str,
        span_type: SpanType,
    )
        ensures
            final(self)@ == old(self)@.insert(id, final(self)@[id]),
            exists|fresh: u64|
                is_fresh_span(
                    final(self)@[id],
                    name@,
                    parent_id,
                    resource@,
                    service@,
                    id,
                    #[trigger] resolve_spec(parent_trace(old(self)@, parent_id), explicit_trace_id, fresh),
                    span_type,
                ),
    {
        let fresh = random_trace_id();
        self.create_with(id, parent_id, explicit_trace_id, fresh, name, service, resource, span_type);
        assert(is_fresh_span(
            self@[id],
            name@,
            parent_id,
            resource@,
            service@,
            id,
            resolve_spec(parent_trace(old(self)@, parent_id), explicit_trace_id, fresh),
            span_type,
        ));
    }

    /// Records that span `id` was entered at `now`; nothing happens when it is
    /// not open.
    pub fn enter(&mut self, id: u64, now: u64)
        ensures
            final(self)@ == entered(old(self)@, id, now),
    {
        if let Some(mut span) = self.spans.remove(&id) {
            span.start = now;
            self.spans.insert(id, span);
            assert(self@ =~= entered(old(self)@, id, now));
        }
    }

    /// Closes span `id` at `now` and hands back the completed span, or
    /// nothing when it is not open.
    pub fn exit(&mut self, id: u64, now: u64) -> (r: Option<DogSpan>)
        ensures
            final(self)@ == old(self)@.remove(id),
            r == exit_result(old(self)@, id, now),
    {
        match self.spans.remove(&id) {
            Some(mut span) => {
                span.duration = elapsed_nanos(span.start, now);
                Some(span)
            },
            None => {
                assert(self@ =~= old(self)@.remove(id));
                None
            },
        }
    }
}

/// A span created while its parent is open belongs to the parent's trace,
/// whatever explicit or fresh trace id was offered.
pub proof fn lemma_child_inherits_trace(
    open: Map<u64, DogSpan>,
    parent: u64,
    explicit: Option<u64>,
    fresh: u64,
)
    requires
        open.contains_key(parent),
    ensures
        resolve_spec(parent_trace(open, Some(parent)), explicit, fresh) == open[parent].trace_id,
{
}

/// A span entered at `t0` and exited at `t1 >= t0` is handed off with
/// duration `t1 - t0`, and leaves the table.
pub proof fn lemma_duration_is_elapsed(open: Map<u64, DogSpan>, id: u64, t0: u64, t1: u64)
    requires
        open.contains_key(id),
        t0 <= t1,
    ensures
        exit_result(entered(open, id, t0), id, t1) is Some,
        exit_result(entered(open, id, t0), id, t1)->Some_0.duration == t1 - t0,
        !entered(open, id, t0).remove(id).contains_key(id),
{
}

/// The first exit of a span hands it off if it was open; a second exit hands
/// off nothing and leaves the table as the first exit left it.
pub proof fn lemma_exit_at_most_once(open: Map<u64, DogSpan>, id: u64, t1: u64, t2: u64)
    ensures
        exit_result(open, id, t1) is Some <==> open.contains_key(id),
        exit_result(open.remove(id), id, t2) is None,
        open.remove(id).remove(id) == open.remove(id),
{
    assert(open.remove(id).remove(id) =~= open.remove(id));
}

} // verus!

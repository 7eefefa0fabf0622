use std::collections::HashMap;
use vstd::prelude::*;

verus! {

broadcast use vstd::string::group_string_axioms;

/// The kind of request a span describes.
#[derive(Debug, Clone, Copy, PartialEq, Eq, Structural)]
pub enum SpanType {
    Web,
    Database,
    Cache,
    Custom,
}

/// A unit of work: while open, `duration` is zero; once exited it holds the
/// time from the last enter to the exit, in nanoseconds.
///
/// Metrics (a map from names to floating-point values) are attached when the
/// span is put on the wire; they are always empty here.
#[derive(Debug)]
pub struct DogSpan {
    /// The duration of the request in nanoseconds.
    pub duration: u64,
    /// 1 when an error occurred, else 0.
    pub error: u8,
    /// Key-value metadata.
    pub meta: HashMap<String, String>,
    /// The span name.
    pub name: String,
    /// The id of the parent span, if any.
    pub parent_id: Option<u64>,
    /// The resource being traced.
    pub resource: String,
    /// The service being traced.
    pub service: String,
    /// The span's process-unique id.
    pub span_id: u64,
    /// Start of the request in nanoseconds since the UNIX epoch.
    pub start: u64,
    /// The id of the trace this span belongs to.
    pub trace_id: u64,
    /// The type of request.
    pub span_type: SpanType,
}

/// Time from `start` to `now`, or zero when the clock went backwards.
pub open spec fn elapsed(start: u64, now: u64) -> u64 {
    if now >= start {
        (now - start) as u64
    } else {
        0
    }
}

/// Computes `elapsed(start, now)`.
pub fn elapsed_nanos(start: u64, now: u64) -> (r: u64)
    ensures
        r == elapsed(start, now),
{
    if now >= start {
        now - start
    } else {
        0
    }
}

/// `s` is a freshly opened span with the given identity: not yet entered,
/// no error, no metadata.
pub open spec fn is_fresh_span(
    s: DogSpan,
    name: Seq<char>,
    parent_id: Option<u64>,
    resource: Seq<char>,
    service: Seq<char>,
    span_id: u64,
    trace_id: u64,
    span_type: SpanType,
) -> bool {
    &&& s.duration == 0
    &&& s.error == 0
    &&& s.meta@ == Map::<String, String>::empty()
    &&& s.name@ == name
    &&& s.parent_id == parent_id
    &&& s.resource@ == resource
    &&& s.service@ == service
    &&& s.span_id == span_id
    &&& s.start == 0
    &&& s.trace_id == trace_id
    &&& s.span_type == span_type
}

impl DogSpan {
    /// A custom span with the given identity and start, not yet finished.
    pub fn new(
        name: &str,
        parent_id: Option<u64>,
        resource: &str,
        service: &str,
        span_id: u64,
        start: u64,
        trace_id: u64,
    ) -> (r: DogSpan)
        ensures
            r.duration == 0,
            r.error == 0,
            r.meta@ == Map::<String, String>::empty(),
            r.name@ == name@,
            r.parent_id == parent_id,
            r.resource@ == resource@,
            r.service@ == service@,
            r.span_id == span_id,
            r.start == start,
            r.trace_id == trace_id,
            r.span_type == SpanType::Custom,
    {
        DogSpan {
            duration: 0,
            error: 0,
            meta: HashMap::new(),
            name: name.to_string(),
            parent_id,
            resource: resource.to_string(),
            service: service.to_string(),
            span_id,
            start,
            trace_id,
            span_type: SpanType::Custom,
        }
    }
}

} // verus!

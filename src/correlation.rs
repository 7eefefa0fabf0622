use vstd::prelude::*;

verus! {

broadcast use vstd::string::group_string_axioms;

/// Name of the span field that seeds a root span's trace id.
pub const TRACE_ID_FIELD: &'static str = "dd_trace_id";

/// The trace id a new span gets: its parent's when the parent is still open,
/// else the explicitly supplied one, else a fresh random value.
pub open spec fn resolve_spec(parent_trace: Option<u64>, explicit: Option<u64>, fresh: u64) -> u64 {
    match parent_trace {
        Some(t) => t,
        None => match explicit {
            Some(t) => t,
            None => fresh,
        },
    }
}

/// Decides a span's trace id from the parent's trace id (if the parent was
/// found), the explicitly supplied id, and a freshly drawn value.
pub fn resolve(parent_trace: Option<u64>, explicit: Option<u64>, fresh: u64) -> (r: u64)
    ensures
        r == resolve_spec(parent_trace, explicit, fresh),
{
    match parent_trace {
        Some(t) => t,
        None => match explicit {
            Some(t) => t,
            None => fresh,
        },
    }
}

/// Relies on `rand::random::<u64>`: a value drawn from the thread-local
/// generator. Nothing is promised of it.
#[verifier::external_body]
fn random_u64() -> (r: u64) {
    rand::random::<u64>()
}

/// A fresh, uniformly drawn 64-bit trace id.
pub fn random_trace_id() -> (r: u64) {
    random_u64()
}

/// Collects the explicit trace id among the fields of a span being created.
pub struct V {
    pub dd_trace_id: Option<u64>,
}

impl V {
    /// A visitor that has seen no trace id field yet.
    pub fn new() -> (r: V)
        ensures
            r.dd_trace_id is None,
    {
        V { dd_trace_id: None }
    }

    /// Records an unsigned field: the trace id field is kept, others are ignored.
    pub fn record_u64(&mut self, field_name: &str, value: u64)
        ensures
            field_name@ == TRACE_ID_FIELD@ ==> final(self).dd_trace_id == Some(value),
            field_name@ != TRACE_ID_FIELD@ ==> final(self).dd_trace_id == old(self).dd_trace_id,
    {
        if field_name.to_string() == TRACE_ID_FIELD.to_string() {
            self.dd_trace_id = Some(value);
        }
    }
}

} // verus!

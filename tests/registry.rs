use std::collections::HashSet;

use dogtrace::correlation::{random_trace_id, resolve, V};
use dogtrace::registry::SpanRegistry;
use dogtrace::span::{elapsed_nanos, DogSpan, SpanType};

const MS: u64 = 1_000_000;

#[test]
fn root_trace_ids_rarely_collide() {
    let mut reg = SpanRegistry::new();
    let mut seen = HashSet::new();
    for id in 0..10_000u64 {
        reg.create(id, None, None, "root", "svc", "", SpanType::Custom);
        let span = reg.exit(id, 0).expect("span is open");
        seen.insert(span.trace_id);
    }
    assert!(seen.len() >= 9_999);
}

#[test]
fn random_trace_ids_differ() {
    let a = random_trace_id();
    let b = random_trace_id();
    let c = random_trace_id();
    assert!(a != b || b != c);
}

#[test]
fn child_inherits_parent_trace() {
    let mut reg = SpanRegistry::new();
    reg.create_with(1, None, None, 4242, "parent", "svc", "", SpanType::Custom);
    reg.create(2, Some(1), Some(7), "child", "svc", "", SpanType::Custom);
    let child = reg.exit(2, 0).unwrap();
    assert_eq!(child.trace_id, 4242);
    assert_eq!(child.parent_id, Some(1));
}

#[test]
fn explicit_trace_id_seeds_root() {
    let mut reg = SpanRegistry::new();
    reg.create(9, None, Some(31337), "root", "svc", "", SpanType::Web);
    assert_eq!(reg.trace_of(Some(9)), Some(31337));
}

#[test]
fn missing_parent_falls_back_to_root_rule() {
    let mut reg = SpanRegistry::new();
    reg.create_with(5, Some(404), Some(12), 99, "orphan", "svc", "", SpanType::Custom);
    assert_eq!(reg.trace_of(Some(5)), Some(12));
    reg.create_with(6, Some(404), None, 99, "orphan", "svc", "", SpanType::Custom);
    assert_eq!(reg.trace_of(Some(6)), Some(99));
}

#[test]
fn resolve_prefers_parent_then_explicit_then_fresh() {
    assert_eq!(resolve(Some(1), Some(2), 3), 1);
    assert_eq!(resolve(None, Some(2), 3), 2);
    assert_eq!(resolve(None, None, 3), 3);
}

#[test]
fn duration_is_exit_minus_enter() {
    let mut reg = SpanRegistry::new();
    reg.create_with(1, None, None, 1, "work", "svc", "", SpanType::Custom);
    reg.enter(1, 1_000);
    let span = reg.exit(1, 1_750).unwrap();
    assert_eq!(span.start, 1_000);
    assert_eq!(span.duration, 750);
}

#[test]
fn clock_going_back_gives_zero_duration() {
    let mut reg = SpanRegistry::new();
    reg.create_with(1, None, None, 1, "work", "svc", "", SpanType::Custom);
    reg.enter(1, 2_000);
    let span = reg.exit(1, 1_000).unwrap();
    assert_eq!(span.duration, 0);
    assert_eq!(elapsed_nanos(10, 3), 0);
    assert_eq!(elapsed_nanos(3, 10), 7);
}

#[test]
fn second_exit_is_noop() {
    let mut reg = SpanRegistry::new();
    reg.create_with(1, None, None, 1, "work", "svc", "", SpanType::Custom);
    reg.enter(1, 10);
    assert!(reg.exit(1, 20).is_some());
    assert!(reg.exit(1, 30).is_none());
    assert!(!reg.contains(1));
}

#[test]
fn enter_unknown_span_is_noop() {
    let mut reg = SpanRegistry::new();
    reg.enter(3, 10);
    assert!(!reg.contains(3));
    assert_eq!(reg.start_of(3), None);
}

#[test]
fn reenter_keeps_latest_start() {
    let mut reg = SpanRegistry::new();
    reg.create_with(1, None, None, 1, "work", "svc", "", SpanType::Custom);
    assert_eq!(reg.start_of(1), Some(0));
    reg.enter(1, 10);
    reg.enter(1, 40);
    assert_eq!(reg.start_of(1), Some(40));
    assert_eq!(reg.exit(1, 50).unwrap().duration, 10);
}

#[test]
fn reentered_after_exit_stays_closed() {
    let mut reg = SpanRegistry::new();
    reg.create_with(1, None, None, 1, "work", "svc", "", SpanType::Custom);
    reg.exit(1, 5);
    reg.enter(1, 10);
    assert!(!reg.contains(1));
}

#[test]
fn created_span_carries_identity() {
    let mut reg = SpanRegistry::new();
    reg.create_with(8, Some(3), None, 55, "query", "api", "SELECT", SpanType::Database);
    let span = reg.exit(8, 0).unwrap();
    assert_eq!(span.name, "query");
    assert_eq!(span.service, "api");
    assert_eq!(span.resource, "SELECT");
    assert_eq!(span.span_id, 8);
    assert_eq!(span.parent_id, Some(3));
    assert_eq!(span.span_type, SpanType::Database);
    assert_eq!(span.error, 0);
    assert!(span.meta.is_empty());
}

#[test]
fn scenario_single_root_span() {
    let mut reg = SpanRegistry::new();
    reg.create(1, None, None, "root", "svc", "", SpanType::Custom);
    let t0 = 1_700_000_000_000_000_000u64;
    reg.enter(1, t0);
    let span = reg.exit(1, t0 + 10 * MS);
    assert!(!reg.contains(1));
    let span = span.unwrap();
    assert_eq!(span.parent_id, None);
    assert_eq!(span.duration, 10 * MS);
    assert!(reg.exit(1, t0 + 20 * MS).is_none());
}

#[test]
fn scenario_child_created_before_parent_exits() {
    let mut reg = SpanRegistry::new();
    reg.create(1, None, None, "parent", "svc", "", SpanType::Custom);
    reg.create(2, Some(1), None, "child", "svc", "", SpanType::Custom);
    let span2 = reg.exit(2, 0).unwrap();
    let span1 = reg.exit(1, 0).unwrap();
    assert_eq!(span2.trace_id, span1.trace_id);
}

#[test]
fn span_new_is_custom_and_unfinished() {
    let span = DogSpan::new("n", Some(1), "r", "s", 2, 3, 4);
    assert_eq!(span.span_type, SpanType::Custom);
    assert_eq!(span.duration, 0);
    assert_eq!(span.start, 3);
    assert_eq!(span.trace_id, 4);
    assert_eq!(span.name, "n");
    assert_eq!(span.resource, "r");
    assert_eq!(span.service, "s");
}

#[test]
fn visitor_keeps_only_trace_id_field() {
    let mut v = V::new();
    assert_eq!(v.dd_trace_id, None);
    v.record_u64("other", 5);
    assert_eq!(v.dd_trace_id, None);
    v.record_u64("dd_trace_id", 77);
    assert_eq!(v.dd_trace_id, Some(77));
    v.record_u64("dd_trace", 1);
    assert_eq!(v.dd_trace_id, Some(77));
}

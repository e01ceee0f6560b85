//! The span lifecycle: creation, tags, errors, and single emission.

use flowtrace::event::EventType;
use flowtrace::span::{start_span, Span};

#[test]
fn test_span_creation() {
    let (span, enter) = Span::new("test_module", "test_function", "main");
    assert_eq!(span.module, "test_module");
    assert_eq!(span.function, "test_function");
    assert!(matches!(enter.event_type, EventType::Enter));
}

#[test]
fn test_span_tags() {
    let (mut span, _enter) = Span::new("test", "func", "main");
    span.set_tag("user_id", "123");
    span.set_tag("action", "login");

    assert_eq!(span.get_tag("user_id").unwrap(), "123");
    assert_eq!(span.get_tag("action").unwrap(), "login");
}

#[test]
fn test_span_error() {
    let (mut span, _enter) = Span::new("test", "func", "main");
    span.set_error("Something went wrong");
    assert!(span.error.is_some());
}

#[test]
fn span_emits_exactly_once() {
    let (mut span, _enter) = Span::new("m", "f", "main");
    let first = span.end();
    let second = span.end();
    assert!(first.is_some());
    assert!(second.is_none());
}

#[test]
fn span_exit_carries_tag_snapshot() {
    let (mut span, _enter) = Span::new("m", "f", "main");
    span.set_tag("k", "v");
    span.set_tag("k2", "v2");
    let ev = span.end().unwrap();
    assert!(matches!(ev.event_type, EventType::Exit));
    assert_eq!(ev.result.as_deref(), Some("{\"k\": \"v\", \"k2\": \"v2\"}"));
    assert!(ev.exception.is_none());
}

#[test]
fn span_exit_without_tags_carries_no_value_marker() {
    let (mut span, _enter) = start_span("m", "f", "main");
    let ev = span.end().unwrap();
    assert!(matches!(ev.event_type, EventType::Exit));
    assert_eq!(ev.result.as_deref(), Some("()"));
    assert!(ev.duration_micros.is_some());
}

#[test]
fn span_error_turns_exit_into_exception() {
    let (mut span, _enter) = start_span("m", "f", "main");
    span.set_tag("ignored", "1");
    span.set_error("boom");
    let ev = span.end().unwrap();
    assert!(matches!(ev.event_type, EventType::Exception));
    assert_eq!(ev.exception.as_deref(), Some("boom"));
    assert!(ev.result.is_none());
}

#[test]
fn span_tag_overwrites_on_collision() {
    let (mut span, _enter) = Span::new("m", "f", "main");
    span.set_tag("k", "old");
    span.set_tag("k", "new");
    assert_eq!(span.get_tag("k").unwrap(), "new");
    let ev = span.end().unwrap();
    assert_eq!(ev.result.as_deref(), Some("{\"k\": \"new\"}"));
}

#[test]
fn span_duration_is_nonnegative() {
    let (span, _enter) = Span::new("m", "f", "main");
    assert!(span.duration_micros() >= 0);
}

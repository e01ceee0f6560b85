//! The event model and its canonical line form, held against a real JSON
//! parser.

use flowtrace::event::{EventType, TraceEvent};
use flowtrace::jsonl::event_line;

#[test]
fn enter_event_fields() {
    let e = TraceEvent::enter("m", "f", Some("{\"x\": 1}".to_string()), "main");
    assert!(matches!(e.event_type, EventType::Enter));
    assert_eq!(e.module, "m");
    assert_eq!(e.function, "f");
    assert_eq!(e.args.as_deref(), Some("{\"x\": 1}"));
    assert!(e.result.is_none());
    assert!(e.exception.is_none());
    assert!(e.duration_millis.is_none());
    assert!(e.duration_micros.is_none());
    assert!(e.timestamp > 1_000_000_000);
}

#[test]
fn exit_event_duration_consistency() {
    let e = TraceEvent::exit("m", "f", Some("3".to_string()), 2500, "main");
    assert!(matches!(e.event_type, EventType::Exit));
    assert_eq!(e.duration_micros, Some(2500));
    assert_eq!(e.duration_millis, Some(2));
    assert!(e.args.is_none());
    assert!(e.exception.is_none());
}

#[test]
fn exception_event_fields() {
    let e = TraceEvent::exception("m", "f", "boom", 999, "main");
    assert!(matches!(e.event_type, EventType::Exception));
    assert_eq!(e.exception.as_deref(), Some("boom"));
    assert_eq!(e.duration_micros, Some(999));
    assert_eq!(e.duration_millis, Some(0));
    assert!(e.args.is_none());
    assert!(e.result.is_none());
}

#[test]
fn event_line_is_valid_json_with_expected_fields() {
    let e = TraceEvent::exit("my::module", "compute", Some("42".to_string()), 123456, "main");
    let line = event_line(&e);
    let v: serde_json::Value = serde_json::from_str(&line).unwrap();
    assert_eq!(v["event"], "EXIT");
    assert_eq!(v["class"], "my::module");
    assert_eq!(v["method"], "compute");
    assert_eq!(v["result"], "42");
    assert_eq!(v["durationMicros"], 123456);
    assert_eq!(v["durationMillis"], 123);
    assert_eq!(v["thread"], "main");
    assert!(v["timestamp"].is_i64());
}

#[test]
fn event_line_omits_absent_fields() {
    let e = TraceEvent::enter("m", "f", None, "main");
    let line = event_line(&e);
    let v: serde_json::Value = serde_json::from_str(&line).unwrap();
    let obj = v.as_object().unwrap();
    assert!(!obj.contains_key("args"));
    assert!(!obj.contains_key("result"));
    assert!(!obj.contains_key("exception"));
    assert!(!obj.contains_key("durationMillis"));
    assert!(!obj.contains_key("durationMicros"));
    assert_eq!(v["event"], "ENTER");
}

#[test]
fn event_line_escapes_payloads() {
    let tricky = "say \"hi\"\\\n\tdone\u{1}";
    let e = TraceEvent::exception("mod\"ule", "f", tricky, 7, "main");
    let line = event_line(&e);
    assert!(!line.contains('\n'));
    let v: serde_json::Value = serde_json::from_str(&line).unwrap();
    assert_eq!(v["exception"], tricky);
    assert_eq!(v["class"], "mod\"ule");
}

#[test]
fn event_line_handles_unicode_payloads() {
    let e = TraceEvent::exit("crate::caf\u{e9}", "f", Some("\u{65e5}\u{672c}\u{8a9e} ok".to_string()), 10, "t");
    let line = event_line(&e);
    let v: serde_json::Value = serde_json::from_str(&line).unwrap();
    assert_eq!(v["class"], "crate::caf\u{e9}");
    assert_eq!(v["result"], "\u{65e5}\u{672c}\u{8a9e} ok");
}

#[test]
fn event_line_handles_large_durations() {
    let e = TraceEvent::exit("m", "f", None, i64::MAX, "t");
    let line = event_line(&e);
    let v: serde_json::Value = serde_json::from_str(&line).unwrap();
    assert_eq!(v["durationMicros"], i64::MAX);
    assert_eq!(v["durationMillis"], i64::MAX / 1000);
}

#[test]
fn exception_line_has_exception_but_no_result() {
    let e = TraceEvent::exception("m", "f", "oops", 1000, "t");
    let line = event_line(&e);
    let v: serde_json::Value = serde_json::from_str(&line).unwrap();
    assert_eq!(v["event"], "EXCEPTION");
    assert_eq!(v["exception"], "oops");
    let obj = v.as_object().unwrap();
    assert!(!obj.contains_key("result"));
    assert!(!obj.contains_key("args"));
    assert_eq!(v["durationMillis"], 1);
}

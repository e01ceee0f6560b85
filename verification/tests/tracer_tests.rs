//! The tracer lifecycle, the interceptor's outcome mapping, and the request
//! hook.

use flowtrace::errors::FlowError;
use flowtrace::event::{EventType, TraceEvent};
use flowtrace::intercept::{args_snapshot, request_enter, request_exit, terminal_event, CallOutcome};
use flowtrace::tracer::{Config, Tracer};

#[test]
fn start_twice_reports_already_started() {
    let mut tracer = Tracer::new();
    let mut first = Config::default();
    first.log_file = "first.jsonl".to_string();
    assert!(tracer.start_tracing(first).is_ok());

    let mut second = Config::default();
    second.log_file = "second.jsonl".to_string();
    let err = tracer.start_tracing(second).unwrap_err();
    assert!(matches!(err, FlowError::AlreadyStarted));

    // the first sink stays active
    assert!(tracer.running);
    assert_eq!(tracer.config.as_ref().unwrap().log_file, "first.jsonl");
}

#[test]
fn stop_is_idempotent_and_discards_events() {
    let mut tracer = Tracer::new();
    tracer.start_tracing(Config::default()).unwrap();
    tracer.stop_tracing();
    tracer.stop_tracing();
    assert!(!tracer.running);

    let e = TraceEvent::enter("m", "f", None, "main");
    assert!(tracer.log_event(&e).is_none());
}

#[test]
fn config_defaults() {
    let c = Config::default();
    assert_eq!(c.log_file, "flowtrace.jsonl");
    assert_eq!(c.package_prefix, "");
    assert!(!c.stdout);
    assert_eq!(c.max_arg_length, 1000);
}

#[test]
fn many_events_give_as_many_well_formed_lines() {
    let mut tracer = Tracer::new();
    tracer.start_tracing(Config::default()).unwrap();
    let mut lines: Vec<String> = Vec::new();
    for i in 0..5000u32 {
        let e = TraceEvent::exit("m", "f", Some(format!("{}", i)), i as i64, "worker");
        lines.push(tracer.log_event(&e).unwrap());
    }
    assert_eq!(lines.len(), 5000);
    for (i, line) in lines.iter().enumerate() {
        let v: serde_json::Value = serde_json::from_str(line).unwrap();
        assert_eq!(v["event"], "EXIT");
        assert_eq!(v["result"], format!("{}", i));
    }
}

#[test]
fn fallible_failure_gives_one_enter_and_one_exception() {
    let enter = TraceEvent::enter("m", "f", None, "main");
    let (terminal, reraise) = terminal_event(
        "m",
        "f",
        &CallOutcome::FallibleErr("bad input".to_string()),
        1500,
        "main",
    );
    assert!(matches!(enter.event_type, EventType::Enter));
    assert!(matches!(terminal.event_type, EventType::Exception));
    assert_eq!(terminal.exception.as_deref(), Some("bad input"));
    assert!(terminal.result.is_none());
    assert!(!reraise);
}

#[test]
fn outcome_mapping_matches_return_category() {
    let (plain, r1) = terminal_event("m", "f", &CallOutcome::Plain("7".to_string()), 10, "t");
    assert!(matches!(plain.event_type, EventType::Exit));
    assert_eq!(plain.result.as_deref(), Some("7"));
    assert!(!r1);

    let (unit, r2) = terminal_event("m", "f", &CallOutcome::NoValue, 10, "t");
    assert_eq!(unit.result.as_deref(), Some("()"));
    assert!(!r2);

    let (ok, r3) = terminal_event("m", "f", &CallOutcome::FallibleOk("yes".to_string()), 10, "t");
    assert_eq!(ok.result.as_deref(), Some("yes"));
    assert!(!r3);

    let (panic_with, r4) =
        terminal_event("m", "f", &CallOutcome::Abort(Some("ouch".to_string())), 10, "t");
    assert!(matches!(panic_with.event_type, EventType::Exception));
    assert_eq!(panic_with.exception.as_deref(), Some("ouch"));
    assert!(r4);

    let (panic_unknown, r5) = terminal_event("m", "f", &CallOutcome::Abort(None), 10, "t");
    assert_eq!(panic_unknown.exception.as_deref(), Some("Unknown panic"));
    assert!(r5);
}

#[test]
fn args_snapshot_truncates_each_value() {
    let args = vec![
        ("x".to_string(), "12345678".to_string()),
        ("name".to_string(), "\"bob\"".to_string()),
    ];
    let snap = args_snapshot(&args, 4);
    assert_eq!(snap, "{\"x\": 1234, \"name\": \"bob}");

    let roomy = args_snapshot(&args, 100);
    assert_eq!(roomy, "{\"x\": 12345678, \"name\": \"bob\"}");

    let empty: Vec<(String, String)> = Vec::new();
    assert_eq!(args_snapshot(&empty, 4), "{}");
}

#[test]
fn request_hook_keys_by_method_and_path() {
    let enter = request_enter("http", "GET", "/users", None, "worker");
    assert!(matches!(enter.event_type, EventType::Enter));
    assert_eq!(enter.function, "GET /users");

    let exit = request_exit("http", "GET", "/users", 200, 4200, "worker");
    assert!(matches!(exit.event_type, EventType::Exit));
    assert_eq!(exit.function, "GET /users");
    assert_eq!(exit.result.as_deref(), Some("{\"status\":200}"));
    assert_eq!(exit.duration_millis, Some(4));
}

//! The rewriter: dry runs, marker injection, and idempotence.

use flowtrace::errors::FlowError;
use flowtrace::rewrite::Instrumenter;
use flowtrace::scan::{AnalysisStats, Analyzer};

#[test]
fn dry_run_selects_without_mutating() {
    let code = r#"
        fn f() { work(); }
        fn g() { work(); }
        fn main() { run(); }
    "#;
    let instrumenter = Instrumenter::new(false);
    let (result, new_text) = instrumenter.instrument_source(code, true).unwrap();
    assert_eq!(result.count, 2);
    assert_eq!(result.functions, vec!["f".to_string(), "g".to_string()]);
    assert!(result.backup_path.is_none());
    assert!(new_text.is_none());
}

#[test]
fn rewrite_marks_selected_functions() {
    let code = r#"
        fn f() { work(); }
        fn main() { run(); }
    "#;
    let instrumenter = Instrumenter::new(false);
    let (result, new_text) = instrumenter.instrument_source(code, false).unwrap();
    assert_eq!(result.count, 1);
    let rewritten = new_text.unwrap();

    // the rewritten text parses, and the marked function now counts as
    // instrumented while nothing is left to select
    let analyzer = Analyzer::new();
    let mut stats = AnalysisStats::default();
    analyzer.analyze_source(&rewritten, &mut stats).unwrap();
    assert_eq!(stats.total_functions, 2);
    assert_eq!(stats.instrumented_functions, 1);
    assert_eq!(stats.instrumentable_functions, 0);
}

#[test]
fn rewrite_is_idempotent() {
    let code = r#"
        fn f() { work(); }
        fn g() { work(); }
    "#;
    let instrumenter = Instrumenter::new(false);
    let (first, new_text) = instrumenter.instrument_source(code, false).unwrap();
    assert_eq!(first.count, 2);
    let once = new_text.unwrap();

    let (second, again) = instrumenter.instrument_source(&once, false).unwrap();
    assert_eq!(second.count, 0);
    assert!(second.functions.is_empty());
    assert!(again.is_none());
}

#[test]
fn rewrite_with_nothing_selected_produces_no_text() {
    let code = "fn main() { run(); }";
    let instrumenter = Instrumenter::new(true);
    let (result, new_text) = instrumenter.instrument_source(code, false).unwrap();
    assert_eq!(result.count, 0);
    assert!(new_text.is_none());
}

#[test]
fn rewrite_reports_parse_errors() {
    let instrumenter = Instrumenter::new(false);
    let err = instrumenter.instrument_source("fn broken( {", false).unwrap_err();
    assert!(matches!(err, FlowError::ParseError(_)));
}

#[test]
fn rewrite_skips_impl_methods() {
    // selection is over top-level functions only
    let code = r#"
        struct S;
        impl S {
            fn method(&self) { work(); }
        }
        fn top() { work(); }
    "#;
    let instrumenter = Instrumenter::new(false);
    let (result, _new_text) = instrumenter.instrument_source(code, true).unwrap();
    assert_eq!(result.functions, vec!["top".to_string()]);
}

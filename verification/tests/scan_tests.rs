//! The scanner: per-file counting, aggregation across files, and the abort
//! on the first unparsable text.

use flowtrace::errors::FlowError;
use flowtrace::scan::{AnalysisStats, Analyzer};

#[test]
fn test_analyzer_basic() {
    let code = r#"
            fn simple() {}

            async fn async_func() {}

            pub fn public_func() {}

            #[trace]
            fn traced() {}
        "#;

    let analyzer = Analyzer::new();
    let mut stats = AnalysisStats::default();
    let outcome = analyzer.analyze_source(code, &mut stats);
    assert!(outcome.is_ok());
    assert_eq!(stats.total_files, 1);
    assert_eq!(stats.total_functions, 4);
    assert_eq!(stats.async_functions, 1);
    assert_eq!(stats.sync_functions, 3);
    assert_eq!(stats.public_functions, 1);
    assert_eq!(stats.private_functions, 3);
    assert_eq!(stats.instrumented_functions, 1);
    // only the traced one is marked; the empty bodies keep the rest out
    assert_eq!(stats.instrumentable_functions, 0);
}

#[test]
fn scan_directory_of_three_files() {
    // 10 functions over 3 files: 2 already marked, 5 eligible, 3 ineligible
    // (the names `main` and `test_x`, and one empty body).
    let file_a = r#"
        #[trace]
        fn marked_one() { work(); }
        fn eligible_one() { work(); }
        fn eligible_two() { work(); }
        fn main() { run(); }
    "#;
    let file_b = r#"
        #[trace]
        fn marked_two() { work(); }
        fn eligible_three() { work(); }
        fn test_x() { work(); }
    "#;
    let file_c = r#"
        fn eligible_four() { work(); }
        fn eligible_five() { work(); }
        fn empty_body() {}
    "#;

    let analyzer = Analyzer::new();
    let texts = vec![file_a.to_string(), file_b.to_string(), file_c.to_string()];
    let stats = analyzer.analyze_files(&texts).unwrap();
    assert_eq!(stats.total_files, 3);
    assert_eq!(stats.total_functions, 10);
    assert_eq!(stats.instrumented_functions, 2);
    assert_eq!(stats.instrumentable_functions, 5);
}

#[test]
fn scan_counts_lines() {
    let analyzer = Analyzer::new();
    let mut stats = AnalysisStats::default();
    analyzer.analyze_source("fn a() {}\nfn b() {}\n", &mut stats).unwrap();
    assert_eq!(stats.total_lines, 2);

    let mut stats2 = AnalysisStats::default();
    analyzer.analyze_source("fn a() {}\nfn b() {}", &mut stats2).unwrap();
    assert_eq!(stats2.total_lines, 2);

    let mut stats3 = AnalysisStats::default();
    analyzer.analyze_source("", &mut stats3).unwrap();
    assert_eq!(stats3.total_lines, 0);
}

#[test]
fn scan_aborts_on_first_parse_error() {
    let analyzer = Analyzer::new();
    let texts = vec![
        "fn fine() { work(); }".to_string(),
        "fn broken( {".to_string(),
        "fn never_reached() { work(); }".to_string(),
    ];
    let err = analyzer.analyze_files(&texts).unwrap_err();
    assert_eq!(err.label(), "parse error");
    match err {
        FlowError::ParseError(msg) => assert!(!msg.is_empty()),
        other => panic!("expected a parse error, got {:?}", other),
    }
}

#[test]
fn error_labels_name_each_variant() {
    assert_eq!(FlowError::PathNotFound("x".to_string()).label(), "path not found");
    assert_eq!(FlowError::IoError("x".to_string()).label(), "io error");
    assert_eq!(FlowError::AlreadyStarted.label(), "already started");
}

#[test]
fn scan_handles_carriage_returns_and_bodyless_mods() {
    let analyzer = Analyzer::new();
    let mut stats = AnalysisStats::default();
    analyzer.analyze_source("mod m;\r\nfn a() { work(); }\r\n", &mut stats).unwrap();
    assert_eq!(stats.total_lines, 2);
    assert_eq!(stats.total_functions, 1);
}

#[test]
fn scan_descends_into_nested_modules() {
    let analyzer = Analyzer::new();
    let mut stats = AnalysisStats::default();
    let code = r#"
        mod outer {
            fn one() { work(); }
            mod inner {
                fn two() { work(); }
            }
        }
    "#;
    analyzer.analyze_source(code, &mut stats).unwrap();
    assert_eq!(stats.total_functions, 2);
}

#[test]
fn scan_counts_functions_nested_in_bodies() {
    let analyzer = Analyzer::new();
    let mut stats = AnalysisStats::default();
    let code = r#"
        fn outer() {
            fn helper() { work(); }
            helper();
        }
    "#;
    analyzer.analyze_source(code, &mut stats).unwrap();
    assert_eq!(stats.total_functions, 2);
    assert_eq!(stats.instrumentable_functions, 2);
}

#[test]
fn scan_counts_impl_methods() {
    let analyzer = Analyzer::new();
    let mut stats = AnalysisStats::default();
    let code = r#"
        struct S;
        impl S {
            pub fn visible(&self) { work(); }
            fn hidden(&self) { work(); }
        }
    "#;
    analyzer.analyze_source(code, &mut stats).unwrap();
    assert_eq!(stats.total_functions, 2);
    assert_eq!(stats.public_functions, 1);
    assert_eq!(stats.private_functions, 1);
    assert_eq!(stats.instrumentable_functions, 2);
}

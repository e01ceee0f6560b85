//! The classifier over real parsed source: the shared predicate, its
//! exclusions, and its purity.

use flowtrace::classify::should_instrument;
use flowtrace::descriptor::FnDescriptor;
use flowtrace::extract::descriptors_of_source;

fn first_descriptor(code: &str) -> FnDescriptor {
    let descs = descriptors_of_source(code).unwrap();
    assert!(!descs.is_empty());
    descs.into_iter().next().unwrap()
}

#[test]
fn test_should_instrument() {
    let code = r#"
            fn simple() { println!("hello"); }
        "#;

    let d = first_descriptor(code);
    assert!(should_instrument(&d));
}

#[test]
fn test_should_not_instrument_test() {
    let code = r#"
            #[test]
            fn test_simple() { assert!(true); }
        "#;

    let d = first_descriptor(code);
    assert!(!should_instrument(&d));
}

#[test]
fn test_should_not_instrument_traced() {
    let code = r#"
            #[trace]
            fn already_traced() { println!("hello"); }
        "#;

    let d = first_descriptor(code);
    assert!(!should_instrument(&d));
}

#[test]
fn classifier_is_deterministic() {
    let code = "fn work() { let x = 1; }";
    let d = first_descriptor(code);
    let first = should_instrument(&d);
    let second = should_instrument(&d);
    assert_eq!(first, second);
    assert!(first);
}

#[test]
fn classifier_rejects_empty_body() {
    let d = first_descriptor("fn empty() {}");
    assert!(!should_instrument(&d));
}

#[test]
fn classifier_rejects_special_names() {
    assert!(!should_instrument(&first_descriptor("fn main() { run(); }")));
    assert!(!should_instrument(&first_descriptor("fn init() { run(); }")));
    assert!(!should_instrument(&first_descriptor("fn test_x() { run(); }")));
}

#[test]
fn classifier_rejects_bench_and_cfg() {
    assert!(!should_instrument(&first_descriptor("#[bench]\nfn b() { run(); }")));
    assert!(!should_instrument(&first_descriptor("#[cfg(feature = \"x\")]\nfn c() { run(); }")));
}

#[test]
fn descriptor_fields_reflect_source() {
    let code = "pub async fn fetch(url: u32) { let a = url; let b = a; }";
    let d = first_descriptor(code);
    assert_eq!(d.name, "fetch");
    assert!(d.is_public);
    assert!(d.is_async);
    assert_eq!(d.stmt_count, 2);
    assert!(d.markers.is_empty());
}

#[test]
fn extraction_descends_into_impls_and_mods() {
    let code = r#"
        fn top() { work(); }
        struct S;
        impl S {
            pub fn method(&self) { work(); }
        }
        mod inner {
            fn nested() { work(); }
        }
    "#;
    let descs = descriptors_of_source(code).unwrap();
    let names: Vec<&str> = descs.iter().map(|d| d.name.as_str()).collect();
    assert_eq!(names, vec!["top", "method", "nested"]);
}

#[test]
fn extraction_descends_into_function_bodies() {
    let code = r#"
        fn outer() {
            let x = 1;
            fn local() { work(); }
            fn deeper() {
                fn innermost() { work(); }
                innermost();
            }
            local();
        }
    "#;
    let descs = descriptors_of_source(code).unwrap();
    let names: Vec<&str> = descs.iter().map(|d| d.name.as_str()).collect();
    assert_eq!(names, vec!["outer", "local", "deeper", "innermost"]);
}

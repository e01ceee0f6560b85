//! Function-instrumentation and tracing toolkit.
//!
//! The crate has two halves.  The static half scans Rust source text for
//! functions that are worth tracing, and can rewrite a file so that every
//! selected function carries the `#[trace]` marker.  The runtime half builds
//! structured trace events (enter / exit / exception), serialises them to a
//! JSON-line form, and manages the lifecycle of a tracer that hands finished
//! lines to whatever sink the host program owns.

pub mod ast;
pub mod classify;
pub mod clock;
pub mod descriptor;
pub mod errors;
pub mod event;
pub mod extract;
pub mod intercept;
pub mod jsonl;
pub mod rewrite;
pub mod scan;
pub mod span;
pub mod strutil;
pub mod tracer;

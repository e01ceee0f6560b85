//! The error taxonomy shared by the scanner, the rewriter and the tracer.

use vstd::prelude::*;

verus! {

/// Everything that can go wrong in this crate.
///
/// * `PathNotFound` — a scan target is neither a file nor a directory.
/// * `ParseError` — source text is not syntactically valid; the payload is a
///   human-readable description of the first failure.
/// * `IoError` — a read, write or copy failed; the payload describes it.
/// * `AlreadyStarted` — a second attempt to start the tracer while it runs.
#[derive(Debug, Clone)]
pub enum FlowError {
    PathNotFound(String),
    ParseError(String),
    IoError(String),
    AlreadyStarted,
}

impl FlowError {
    /// A short machine-readable label for the error variant.
    pub fn label(&self) -> (r: &'static str)
        ensures
            r@ == self.label_spec(),
    {
        match self {
            FlowError::PathNotFound(_) => "path not found",
            FlowError::ParseError(_) => "parse error",
            FlowError::IoError(_) => "io error",
            FlowError::AlreadyStarted => "already started",
        }
    }

    pub open spec fn label_spec(&self) -> Seq<char> {
        match self {
            FlowError::PathNotFound(_) => "path not found"@,
            FlowError::ParseError(_) => "parse error"@,
            FlowError::IoError(_) => "io error"@,
            FlowError::AlreadyStarted => "already started"@,
        }
    }
}

} // verus!

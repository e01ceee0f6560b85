//! The eligibility classifier: a pure predicate over a function's
//! structural description, shared by the scanner and the rewriter.

use vstd::prelude::*;
use crate::descriptor::{FnDescriptor, spec_instrumented, spec_test_only, spec_eligible};
use crate::strutil::string_views;
use crate::strutil::{str_eq, has_prefix};

verus! {

/// Does the marker list contain exactly the word `w`?
pub fn markers_contain(markers: &Vec<String>, w: &str) -> (r: bool)
    ensures
        r == exists|i: int| 0 <= i < string_views(markers@).len() && string_views(markers@)[i]
            == w@,
{
    let ghost views = string_views(markers@);
    let mut i: usize = 0;
    while i < markers.len()
        invariant
            i <= markers@.len(),
            views == string_views(markers@),
            forall|j: int| 0 <= j < i ==> views[j] != w@,
        decreases markers@.len() - i,
    {
        if str_eq(markers[i].as_str(), w) {
            assert(views[i as int] == w@);
            return true;
        }
        assert(views[i as int] == markers@[i as int]@);
        i = i + 1;
    }
    false
}

/// The function already carries the `#[trace]` marker.
pub fn has_trace_attribute(d: &FnDescriptor) -> (r: bool)
    ensures
        r == spec_instrumented(d.model()),
{
    markers_contain(&d.markers, "trace")
}

/// The function carries a test, benchmark or conditional-build marker.
pub fn is_test_function(d: &FnDescriptor) -> (r: bool)
    ensures
        r == spec_test_only(d.model()),
{
    let t = markers_contain(&d.markers, "test");
    let c = markers_contain(&d.markers, "cfg");
    let b = markers_contain(&d.markers, "bench");
    t || c || b
}

/// The shared classification predicate.  Deterministic and side-effect-free:
/// the result is exactly [`spec_eligible`] of the descriptor's model, so two
/// calls on equal descriptors always agree.
pub fn should_instrument(d: &FnDescriptor) -> (r: bool)
    ensures
        r == spec_eligible(d.model()),
{
    if has_trace_attribute(d) {
        return false;
    }
    if is_test_function(d) {
        return false;
    }
    if d.stmt_count == 0 {
        return false;
    }
    let name = d.name.as_str();
    if str_eq(name, "main") || str_eq(name, "init") || has_prefix(name, "test_") {
        return false;
    }
    true
}

} // verus!

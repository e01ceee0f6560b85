//! The canonical trace record: a tagged union over enter, exit and
//! exception, with the field invariant every emitted event satisfies.

use vstd::prelude::*;
use crate::clock::epoch_micros;

verus! {

/// The kind of one trace record.
#[derive(Debug, Clone, Copy, PartialEq, Eq, Structural)]
pub enum EventType {
    Enter,
    Exit,
    Exception,
}

/// One trace record.  `timestamp` is microseconds since the epoch; the
/// durations are present exactly on exit and exception records, with the
/// milliseconds derived from the microseconds by integer division.
#[derive(Debug, Clone)]
pub struct TraceEvent {
    pub event_type: EventType,
    pub timestamp: i64,
    pub module: String,
    pub function: String,
    pub args: Option<String>,
    pub result: Option<String>,
    pub exception: Option<String>,
    pub duration_millis: Option<i64>,
    pub duration_micros: Option<i64>,
    pub thread: String,
}

impl TraceEvent {
    /// The field invariant: exactly the snapshot matching the kind is
    /// populated, durations are present exactly on exit and exception
    /// records, and the milliseconds are the microseconds divided by 1000.
    pub open spec fn well_formed(&self) -> bool {
        &&& self.timestamp >= 0
        &&& match self.event_type {
            EventType::Enter => {
                &&& self.result is None
                &&& self.exception is None
                &&& self.duration_millis is None
                &&& self.duration_micros is None
            },
            EventType::Exit => {
                &&& self.args is None
                &&& self.exception is None
                &&& self.durations_consistent()
            },
            EventType::Exception => {
                &&& self.args is None
                &&& self.result is None
                &&& self.exception is Some
                &&& self.durations_consistent()
            },
        }
    }

    /// Both durations are present, nonnegative, and the milliseconds are
    /// the microseconds divided by 1000 (integer division).
    pub open spec fn durations_consistent(&self) -> bool {
        &&& self.duration_micros matches Some(us) && us >= 0
        &&& self.duration_millis matches Some(ms) && ms == (self.duration_micros->0) / 1000
    }

    /// A fresh enter record, stamped with the wall clock.
    pub fn enter(module: &str, function: &str, args: Option<String>, thread: &str) -> (r:
        TraceEvent)
        ensures
            r.well_formed(),
            r.event_type == EventType::Enter,
            r.module@ == module@,
            r.function@ == function@,
            r.args == args,
            r.thread@ == thread@,
    {
        TraceEvent {
            event_type: EventType::Enter,
            timestamp: epoch_micros(),
            module: module.to_owned(),
            function: function.to_owned(),
            args,
            result: None,
            exception: None,
            duration_millis: None,
            duration_micros: None,
            thread: thread.to_owned(),
        }
    }

    /// A fresh exit record: the milliseconds are derived from the given
    /// microseconds by integer division.
    pub fn exit(module: &str, function: &str, result: Option<String>, duration_micros: i64, thread: &str) -> (r: TraceEvent)
        requires
            duration_micros >= 0,
        ensures
            r.well_formed(),
            r.event_type == EventType::Exit,
            r.module@ == module@,
            r.function@ == function@,
            r.result == result,
            r.duration_micros == Some(duration_micros),
            r.duration_millis matches Some(ms) && ms == duration_micros / 1000,
            r.thread@ == thread@,
    {
        let duration_millis = ((duration_micros as u64) / 1000) as i64;
        proof {
            assert(duration_millis == duration_micros / 1000);
        }
        TraceEvent {
            event_type: EventType::Exit,
            timestamp: epoch_micros(),
            module: module.to_owned(),
            function: function.to_owned(),
            args: None,
            result,
            exception: None,
            duration_millis: Some(duration_millis),
            duration_micros: Some(duration_micros),
            thread: thread.to_owned(),
        }
    }

    /// A fresh exception record: the milliseconds are derived from the given
    /// microseconds by integer division.
    pub fn exception(module: &str, function: &str, error: &str, duration_micros: i64, thread: &str) -> (r: TraceEvent)
        requires
            duration_micros >= 0,
        ensures
            r.well_formed(),
            r.event_type == EventType::Exception,
            r.module@ == module@,
            r.function@ == function@,
            r.exception matches Some(m) && m@ == error@,
            r.duration_micros == Some(duration_micros),
            r.duration_millis matches Some(ms) && ms == duration_micros / 1000,
            r.thread@ == thread@,
    {
        let duration_millis = ((duration_micros as u64) / 1000) as i64;
        proof {
            assert(duration_millis == duration_micros / 1000);
        }
        TraceEvent {
            event_type: EventType::Exception,
            timestamp: epoch_micros(),
            module: module.to_owned(),
            function: function.to_owned(),
            args: None,
            result: None,
            exception: Some(error.to_owned()),
            duration_millis: Some(duration_millis),
            duration_micros: Some(duration_micros),
            thread: thread.to_owned(),
        }
    }
}

/// The duration invariant, stated on its own: every well-formed exit or
/// exception record carries `durationMillis == durationMicros / 1000`.
pub proof fn lemma_duration_consistency(e: TraceEvent)
    requires
        e.well_formed(),
        e.event_type == EventType::Exit || e.event_type == EventType::Exception,
    ensures
        e.duration_micros is Some,
        e.duration_millis matches Some(ms) && ms == (e.duration_micros->0) / 1000,
{
}

/// The field invariant, stated on its own: a well-formed record is an
/// exception record exactly when a failure description is present, and then
/// neither snapshot is; an enter record never carries a result, a failure or
/// a duration.
pub proof fn lemma_event_field_invariant(e: TraceEvent)
    requires
        e.well_formed(),
    ensures
        (e.event_type == EventType::Exception) <==> (e.exception is Some),
        (e.event_type == EventType::Exception) ==> (e.args is None && e.result is None),
        (e.event_type == EventType::Enter) ==> (e.result is None && e.exception is None
            && e.duration_millis is None && e.duration_micros is None),
{
}

} // verus!

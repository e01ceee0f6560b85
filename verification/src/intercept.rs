//! The call-wrapping contract applied around every instrumented function,
//! and the generic before/after hook a request pipeline plugs into.
//!
//! The wrapper itself runs in the host program; what is verified here is the
//! decision logic: how the argument snapshot is built, and which terminal
//! record each call outcome produces.

use vstd::prelude::*;
use vstd::string::*;
use crate::event::{EventType, TraceEvent};
use crate::jsonl::{decimal_str, push_decimal};
use crate::strutil::{pair_views, truncated, truncate_chars};

verus! {

/// How one intercepted call came out.
///
/// A `Plain` value and a fallible union's branches carry the best-effort
/// string snapshot the wrapper took.  `Abort` is a fault that escaped the
/// body: its message, when one was extractable.
pub enum CallOutcome {
    Plain(String),
    NoValue,
    FallibleOk(String),
    FallibleErr(String),
    Abort(Option<String>),
}

/// One entry of an argument snapshot: the argument's name, then its value
/// truncated to the configured maximum.
pub open spec fn arg_entry(p: (Seq<char>, Seq<char>), max: nat) -> Seq<char> {
    seq!['"'] + p.0 + seq!['"', ':', ' '] + truncated(p.1, max)
}

/// The entries of an argument snapshot, comma-separated, in order.
pub open spec fn arg_entries(s: Seq<(Seq<char>, Seq<char>)>, max: nat) -> Seq<char>
    decreases s.len(),
{
    if s.len() == 0 {
        Seq::empty()
    } else if s.len() == 1 {
        arg_entry(s[0], max)
    } else {
        arg_entries(s.drop_last(), max) + ", "@ + arg_entry(s.last(), max)
    }
}

/// The whole argument snapshot: the entries between braces.
pub open spec fn args_snapshot_spec(s: Seq<(Seq<char>, Seq<char>)>, max: nat) -> Seq<char> {
    seq!['{'] + arg_entries(s, max) + seq!['}']
}

/// Build the argument snapshot for one call: each value individually
/// truncated to `max` characters, never failing.
pub fn args_snapshot(args: &Vec<(String, String)>, max: usize) -> (r: String)
    ensures
        r@ == args_snapshot_spec(pair_views(args@), max as nat),
{
    let ghost s = pair_views(args@);
    let mut out = String::new();
    out.append("{");
    proof {
        reveal_strlit("{");
        assert("{"@ =~= seq!['{']);
        assert(s.take(0) =~= Seq::<(Seq<char>, Seq<char>)>::empty());
        assert(out@ =~= seq!['{'] + arg_entries(s.take(0), max as nat));
    }
    let mut k: usize = 0;
    while k < args.len()
        invariant
            k <= args@.len(),
            s == pair_views(args@),
            s.len() == args@.len(),
            out@ == seq!['{'] + arg_entries(s.take(k as int), max as nat),
        decreases args@.len() - k,
    {
        proof {
            assert(s.take(k as int + 1).drop_last() =~= s.take(k as int));
            assert(s.take(k as int + 1).last() == s[k as int]);
            assert(s[k as int] == (args@[k as int].0@, args@[k as int].1@));
        }
        if k > 0 {
            out.append(", ");
            proof {
                reveal_strlit(", ");
                assert(", "@ =~= seq![',', ' ']);
            }
        }
        out.append("\"");
        out.append(args[k].0.as_str());
        out.append("\": ");
        let piece = truncate_chars(args[k].1.as_str(), max);
        out.append(piece.as_str());
        proof {
            reveal_strlit("\"");
            reveal_strlit("\": ");
            assert("\""@ =~= seq!['"']);
            assert("\": "@ =~= seq!['"', ':', ' ']);
            if k == 0 {
                assert(out@ =~= seq!['{'] + arg_entries(s.take(1), max as nat));
            } else {
                assert(out@ =~= seq!['{'] + arg_entries(s.take(k as int + 1), max as nat));
            }
        }
        k = k + 1;
    }
    out.append("}");
    proof {
        reveal_strlit("}");
        assert("}"@ =~= seq!['}']);
        assert(s.take(s.len() as int) =~= s);
        assert(out@ =~= args_snapshot_spec(s, max as nat));
    }
    out
}

/// The terminal record for one intercepted call, and whether the wrapper
/// must re-raise the fault it observed.
///
/// A fallible union's failure branch and an escaped fault give an exception
/// record — the failure branch never an exit record; every other completion
/// gives an exit record, a bodiless return carrying the fixed `()` marker.
/// Only an escaped fault is re-raised: the wrapper never alters the call's
/// own control flow otherwise.
pub fn terminal_event(
    module: &str,
    function: &str,
    outcome: &CallOutcome,
    duration_micros: i64,
    thread: &str,
) -> (r: (TraceEvent, bool))
    requires
        duration_micros >= 0,
    ensures
        r.0.well_formed(),
        r.0.module@ == module@,
        r.0.function@ == function@,
        r.0.thread@ == thread@,
        r.0.duration_micros == Some(duration_micros),
        r.1 == (outcome is Abort),
        (match *outcome {
            CallOutcome::Plain(ref v) => r.0.event_type == EventType::Exit && (
            r.0.result matches Some(s) && s@ == v@),
            CallOutcome::NoValue => r.0.event_type == EventType::Exit && (r.0.result matches Some(s)
                && s@ == "()"@),
            CallOutcome::FallibleOk(ref v) => r.0.event_type == EventType::Exit && (
            r.0.result matches Some(s) && s@ == v@),
            CallOutcome::FallibleErr(ref m) => r.0.event_type == EventType::Exception && (
            r.0.exception matches Some(x) && x@ == m@),
            CallOutcome::Abort(Some(ref m)) => r.0.event_type == EventType::Exception && (
            r.0.exception matches Some(x) && x@ == m@),
            CallOutcome::Abort(None) => r.0.event_type == EventType::Exception && (
            r.0.exception matches Some(x) && x@ == "Unknown panic"@),
        }),
{
    match outcome {
        CallOutcome::Plain(v) => {
            let ev = TraceEvent::exit(
                module,
                function,
                Some(v.clone()),
                duration_micros,
                thread,
            );
            (ev, false)
        },
        CallOutcome::NoValue => {
            let ev = TraceEvent::exit(
                module,
                function,
                Some(String::from_str("()")),
                duration_micros,
                thread,
            );
            (ev, false)
        },
        CallOutcome::FallibleOk(v) => {
            let ev = TraceEvent::exit(
                module,
                function,
                Some(v.clone()),
                duration_micros,
                thread,
            );
            (ev, false)
        },
        CallOutcome::FallibleErr(m) => {
            let ev = TraceEvent::exception(module, function, m.as_str(), duration_micros, thread);
            (ev, false)
        },
        CallOutcome::Abort(Some(m)) => {
            let ev = TraceEvent::exception(module, function, m.as_str(), duration_micros, thread);
            (ev, true)
        },
        CallOutcome::Abort(None) => {
            let ev = TraceEvent::exception(
                module,
                function,
                "Unknown panic",
                duration_micros,
                thread,
            );
            (ev, true)
        },
    }
}

/// The before-hook of the request pipeline: an enter record keyed by
/// `<METHOD> <PATH>`.
pub fn request_enter(module: &str, method: &str, path: &str, args: Option<String>, thread: &str) -> (r: TraceEvent)
    ensures
        r.well_formed(),
        r.event_type == EventType::Enter,
        r.module@ == module@,
        r.function@ == method@ + " "@ + path@,
        r.args == args,
        r.thread@ == thread@,
{
    let mut key = String::new();
    key.append(method);
    key.append(" ");
    key.append(path);
    proof {
        assert(key@ =~= method@ + " "@ + path@);
    }
    TraceEvent::enter(module, key.as_str(), args, thread)
}

/// The after-hook of the request pipeline: an exit record keyed by
/// `<METHOD> <PATH>`, carrying the response's status code and the elapsed
/// duration.
pub fn request_exit(
    module: &str,
    method: &str,
    path: &str,
    status: u16,
    duration_micros: i64,
    thread: &str,
) -> (r: TraceEvent)
    requires
        duration_micros >= 0,
    ensures
        r.well_formed(),
        r.event_type == EventType::Exit,
        r.module@ == module@,
        r.function@ == method@ + " "@ + path@,
        r.result matches Some(s) && s@ == "{\"status\":"@ + decimal_str(status as nat) + "}"@,
        r.duration_micros == Some(duration_micros),
        r.thread@ == thread@,
{
    let mut key = String::new();
    key.append(method);
    key.append(" ");
    key.append(path);
    proof {
        assert(key@ =~= method@ + " "@ + path@);
    }
    let mut result = String::new();
    result.append("{\"status\":");
    push_decimal(&mut result, status as u64);
    result.append("}");
    proof {
        assert(result@ =~= "{\"status\":"@ + decimal_str(status as nat) + "}"@);
    }
    TraceEvent::exit(module, key.as_str(), Some(result), duration_micros, thread)
}

} // verus!

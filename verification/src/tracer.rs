//! The process-wide tracer lifecycle: at most one running sink, started and
//! stopped explicitly, handing one finished line per event to whatever
//! writer the host program owns.

use vstd::prelude::*;
use vstd::string::StringExecFns;
use crate::errors::FlowError;
use crate::event::TraceEvent;
use crate::jsonl::{event_line, event_line_spec};

verus! {

/// What the tracer is configured with, immutable once it starts.
///
/// `package_prefix` is reserved: nothing consults it yet.  `log_file` is the
/// output target the owning writer should append to; an empty path means no
/// file target.  `stdout` asks the writer to mirror each line to the
/// console.  `max_arg_length` caps each captured argument snapshot.
#[derive(Debug, Clone)]
pub struct Config {
    pub package_prefix: String,
    pub log_file: String,
    pub stdout: bool,
    pub max_arg_length: usize,
}

impl Default for Config {
    /// The defaults: no prefix, the `flowtrace.jsonl` target, no console
    /// mirror, snapshots capped at 1000 characters.
    fn default() -> (r: Config)
        ensures
            r.package_prefix@ == Seq::<char>::empty(),
            r.log_file@ == "flowtrace.jsonl"@,
            r.stdout == false,
            r.max_arg_length == 1000,
    {
        Config {
            package_prefix: String::new(),
            log_file: String::from_str("flowtrace.jsonl"),
            stdout: false,
            max_arg_length: 1000,
        }
    }
}

/// The tracer's state: uninitialized, or running with one active
/// configuration.  Every event logged while it runs becomes exactly one
/// serialised line; events logged while it is uninitialized are discarded.
pub struct Tracer {
    pub running: bool,
    pub config: Option<Config>,
}

impl Tracer {
    /// A fresh, uninitialized tracer.
    pub fn new() -> (r: Tracer)
        ensures
            !r.running,
            r.config is None,
    {
        Tracer { running: false, config: None }
    }

    /// Start tracing.  Fails with `AlreadyStarted`, leaving the first
    /// configuration active and untouched, exactly when the tracer is
    /// already running.
    pub fn start_tracing(&mut self, config: Config) -> (r: Result<(), FlowError>)
        ensures
            old(self).running ==> (r matches Err(e) && e is AlreadyStarted && *final(self) == *old(
                self,
            )),
            !old(self).running ==> (r is Ok && final(self).running && final(self).config == Some(
                config,
            )),
    {
        if self.running {
            return Err(FlowError::AlreadyStarted);
        }
        self.running = true;
        self.config = Some(config);
        Ok(())
    }

    /// Stop tracing and release the configuration.  A no-op when the tracer
    /// is already uninitialized.
    pub fn stop_tracing(&mut self)
        ensures
            !final(self).running,
            final(self).config is None,
    {
        self.running = false;
        self.config = None;
    }

    /// The canonical line for `e`, when the tracer runs; nothing otherwise.
    pub fn log_event(&self, e: &TraceEvent) -> (r: Option<String>)
        requires
            e.well_formed(),
        ensures
            self.running ==> (r matches Some(line) && line@ == event_line_spec(*e)),
            !self.running ==> r is None,
    {
        if self.running {
            Some(event_line(e))
        } else {
            None
        }
    }
}

} // verus!

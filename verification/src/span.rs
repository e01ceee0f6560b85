//! The manual tracing span: a single-use, scope-bound accumulator of tags
//! and an optional failure, terminated exactly once.

use vstd::prelude::*;
use vstd::string::*;
use crate::clock::{elapsed_micros, monotonic_now};
use crate::event::{EventType, TraceEvent};
use crate::jsonl::json_string;
use crate::strutil::{pair_views, str_eq};

verus! {

/// No key occurs twice.
pub open spec fn unique_keys(s: Seq<(Seq<char>, Seq<char>)>) -> bool {
    forall|i: int, j: int| 0 <= i < j < s.len() ==> (#[trigger] s[i]).0 != (#[trigger] s[j]).0
}

/// Write `v` under `k`: the first entry holding `k` is overwritten in
/// place, and a missing key is appended at the end.
pub open spec fn upsert(s: Seq<(Seq<char>, Seq<char>)>, k: Seq<char>, v: Seq<char>) -> Seq<
    (Seq<char>, Seq<char>),
>
    decreases s.len(),
{
    if s.len() == 0 {
        seq![(k, v)]
    } else if s[0].0 == k {
        seq![(k, v)] + s.drop_first()
    } else {
        seq![s[0]] + upsert(s.drop_first(), k, v)
    }
}

/// The value under `k`, if any.
pub open spec fn tag_lookup(s: Seq<(Seq<char>, Seq<char>)>, k: Seq<char>) -> Option<Seq<char>>
    decreases s.len(),
{
    if s.len() == 0 {
        None
    } else if s[0].0 == k {
        Some(s[0].1)
    } else {
        tag_lookup(s.drop_first(), k)
    }
}

proof fn lemma_upsert_found(s: Seq<(Seq<char>, Seq<char>)>, k: Seq<char>, v: Seq<char>, i: int)
    requires
        0 <= i < s.len(),
        s[i].0 == k,
        forall|j: int| 0 <= j < i ==> (#[trigger] s[j]).0 != k,
    ensures
        upsert(s, k, v) == s.update(i, (k, v)),
    decreases i,
{
    if i == 0 {
        assert(upsert(s, k, v) =~= s.update(0, (k, v)));
    } else {
        assert(s[0].0 != k);
        lemma_upsert_found(s.drop_first(), k, v, i - 1);
        assert(seq![s[0]] + s.drop_first().update(i - 1, (k, v)) =~= s.update(i, (k, v)));
    }
}

proof fn lemma_upsert_absent(s: Seq<(Seq<char>, Seq<char>)>, k: Seq<char>, v: Seq<char>)
    requires
        forall|j: int| 0 <= j < s.len() ==> (#[trigger] s[j]).0 != k,
    ensures
        upsert(s, k, v) == s.push((k, v)),
    decreases s.len(),
{
    if s.len() == 0 {
        assert(upsert(s, k, v) =~= s.push((k, v)));
    } else {
        lemma_upsert_absent(s.drop_first(), k, v);
        assert(seq![s[0]] + s.drop_first().push((k, v)) =~= s.push((k, v)));
    }
}

proof fn lemma_unique_update_same_key(
    s: Seq<(Seq<char>, Seq<char>)>,
    i: int,
    kv: (Seq<char>, Seq<char>),
)
    requires
        unique_keys(s),
        0 <= i < s.len(),
        s[i].0 == kv.0,
    ensures
        unique_keys(s.update(i, kv)),
{
    let t = s.update(i, kv);
    assert forall|a: int, b: int| 0 <= a < b < t.len() implies (#[trigger] t[a]).0 != (
    #[trigger] t[b]).0 by {
        assert(s[a].0 != s[b].0);
        assert(t[a].0 == s[a].0);
        assert(t[b].0 == s[b].0);
    }
}

proof fn lemma_unique_push_new_key(s: Seq<(Seq<char>, Seq<char>)>, kv: (Seq<char>, Seq<char>))
    requires
        unique_keys(s),
        forall|j: int| 0 <= j < s.len() ==> (#[trigger] s[j]).0 != kv.0,
    ensures
        unique_keys(s.push(kv)),
{
    let t = s.push(kv);
    assert forall|a: int, b: int| 0 <= a < b < t.len() implies (#[trigger] t[a]).0 != (
    #[trigger] t[b]).0 by {
        if b < s.len() {
            assert(s[a].0 != s[b].0);
        } else {
            assert(t[b] == kv);
            assert(s[a].0 != kv.0);
        }
    }
}

/// One entry of the tag snapshot.
pub open spec fn tag_entry(p: (Seq<char>, Seq<char>)) -> Seq<char> {
    json_string(p.0) + ": "@ + json_string(p.1)
}

/// The entries of the tag snapshot, in insertion order, comma-separated.
pub open spec fn tag_entries(s: Seq<(Seq<char>, Seq<char>)>) -> Seq<char>
    decreases s.len(),
{
    if s.len() == 0 {
        Seq::empty()
    } else if s.len() == 1 {
        tag_entry(s[0])
    } else {
        tag_entries(s.drop_last()) + ", "@ + tag_entry(s.last())
    }
}

/// The snapshot of a tag map: its entries between braces, in insertion
/// order.
pub open spec fn tags_snapshot(s: Seq<(Seq<char>, Seq<char>)>) -> Seq<char> {
    seq!['{'] + tag_entries(s) + seq!['}']
}

/// A manual tracing region.  Creating one emits an enter record; ending it
/// emits exactly one terminal record — an exception record when a failure
/// was set, an exit record otherwise — and a second call emits nothing.
pub struct Span {
    pub module: String,
    pub function: String,
    pub start: std::time::Instant,
    pub tags: Vec<(String, String)>,
    pub error: Option<String>,
    pub thread: String,
    pub ended: bool,
}

impl Span {
    /// The span's tag map, as character views in insertion order.
    pub open spec fn tag_model(&self) -> Seq<(Seq<char>, Seq<char>)> {
        pair_views(self.tags@)
    }

    /// The single-use accumulator is well formed: no tag key occurs twice.
    pub open spec fn wf(&self) -> bool {
        unique_keys(self.tag_model())
    }

    /// Open a span: the clock starts and the enter record to be logged is
    /// handed back with the fresh span.
    pub fn new(module: &str, function: &str, thread: &str) -> (r: (Span, TraceEvent))
        ensures
            r.0.wf(),
            !r.0.ended,
            r.0.module@ == module@,
            r.0.function@ == function@,
            r.0.error is None,
            r.0.tag_model() == Seq::<(Seq<char>, Seq<char>)>::empty(),
            r.0.thread@ == thread@,
            r.1.well_formed(),
            r.1.event_type == EventType::Enter,
            r.1.module@ == module@,
            r.1.function@ == function@,
            r.1.args is None,
            r.1.thread@ == thread@,
    {
        let event = TraceEvent::enter(module, function, None, thread);
        let span = Span {
            module: module.to_owned(),
            function: function.to_owned(),
            start: monotonic_now(),
            tags: Vec::new(),
            error: None,
            thread: thread.to_owned(),
            ended: false,
        };
        proof {
            assert(span.tag_model() =~= Seq::<(Seq<char>, Seq<char>)>::empty());
        }
        (span, event)
    }

    /// Write a tag: an existing key is overwritten in place, a new key is
    /// appended.
    pub fn set_tag(&mut self, key: &str, value: &str)
        requires
            old(self).wf(),
        ensures
            final(self).wf(),
            final(self).tag_model() == upsert(old(self).tag_model(), key@, value@),
            final(self).module == old(self).module,
            final(self).function == old(self).function,
            final(self).error == old(self).error,
            final(self).thread == old(self).thread,
            final(self).ended == old(self).ended,
    {
        let ghost s0 = self.tag_model();
        let mut i: usize = 0;
        while i < self.tags.len()
            invariant
                *self == *old(self),
                old(self).wf(),
                s0 == pair_views(self.tags@),
                s0.len() == self.tags@.len(),
                i <= self.tags@.len(),
                forall|j: int| 0 <= j < i ==> (#[trigger] s0[j]).0 != key@,
            decreases self.tags@.len() - i,
        {
            proof {
                assert(s0[i as int] == (self.tags@[i as int].0@, self.tags@[i as int].1@));
            }
            if str_eq(self.tags[i].0.as_str(), key) {
                proof {
                    lemma_upsert_found(s0, key@, value@, i as int);
                    lemma_unique_update_same_key(s0, i as int, (key@, value@));
                }
                self.tags[i] = (key.to_owned(), value.to_owned());
                proof {
                    assert(self.tag_model() =~= s0.update(i as int, (key@, value@)));
                }
                return ;
            }
            i = i + 1;
        }
        proof {
            lemma_upsert_absent(s0, key@, value@);
            lemma_unique_push_new_key(s0, (key@, value@));
        }
        self.tags.push((key.to_owned(), value.to_owned()));
        proof {
            assert(self.tag_model() =~= s0.push((key@, value@)));
        }
    }

    /// The value stored under `key`, if any.
    pub fn get_tag(&self, key: &str) -> (r: Option<&String>)
        ensures
            (r matches Some(v) ==> tag_lookup(self.tag_model(), key@) == Some(v@)),
            (r is None ==> tag_lookup(self.tag_model(), key@) is None),
    {
        let ghost s0 = self.tag_model();
        proof {
            assert(s0.skip(0) =~= s0);
        }
        let mut i: usize = 0;
        while i < self.tags.len()
            invariant
                s0 == pair_views(self.tags@),
                s0.len() == self.tags@.len(),
                i <= self.tags@.len(),
                tag_lookup(s0, key@) == tag_lookup(s0.skip(i as int), key@),
            decreases self.tags@.len() - i,
        {
            proof {
                assert(s0[i as int] == (self.tags@[i as int].0@, self.tags@[i as int].1@));
                assert(s0.skip(i as int)[0] == s0[i as int]);
                assert(s0.skip(i as int).drop_first() =~= s0.skip(i as int + 1));
            }
            if str_eq(self.tags[i].0.as_str(), key) {
                return Some(&self.tags[i].1);
            }
            i = i + 1;
        }
        proof {
            assert(s0.skip(s0.len() as int).len() == 0);
        }
        None
    }

    /// Record a failure: the terminal record will be an exception record
    /// carrying this message.
    pub fn set_error(&mut self, error: &str)
        requires
            old(self).wf(),
        ensures
            final(self).wf(),
            final(self).error matches Some(m) && m@ == error@,
            final(self).tag_model() == old(self).tag_model(),
            final(self).module == old(self).module,
            final(self).function == old(self).function,
            final(self).thread == old(self).thread,
            final(self).ended == old(self).ended,
    {
        self.error = Some(error.to_owned());
    }

    /// The time since the span opened, in microseconds; never negative.
    pub fn duration_micros(&self) -> (r: i64)
        ensures
            r >= 0,
    {
        elapsed_micros(&self.start)
    }

    /// Terminate the span.  The first call hands back exactly one terminal
    /// record — an exception record when a failure was set, an exit record
    /// carrying the tag snapshot (or the fixed no-value marker `()` when the
    /// tag map is empty) otherwise — and permanently disables any further
    /// emission: a second call, or the discard-time emission after this one,
    /// yields nothing.
    pub fn end(&mut self) -> (r: Option<TraceEvent>)
        requires
            old(self).wf(),
        ensures
            final(self).wf(),
            final(self).ended,
            old(self).ended ==> (r is None && *final(self) == *old(self)),
            !old(self).ended ==> (r matches Some(ev) && ev.well_formed() && ev.module@ == old(
                self,
            ).module@ && ev.function@ == old(self).function@ && ev.thread@ == old(self).thread@ && (
            match old(self).error {
                Some(m) => ev.event_type == EventType::Exception && (ev.exception matches Some(x)
                    && x@ == m@),
                None => ev.event_type == EventType::Exit && (if old(self).tag_model().len() == 0 {
                    ev.result matches Some(s) && s@ == "()"@
                } else {
                    ev.result matches Some(s) && s@ == tags_snapshot(old(self).tag_model())
                }),
            })),
    {
        if self.ended {
            return None;
        }
        self.ended = true;
        let duration = elapsed_micros(&self.start);
        match &self.error {
            Some(m) => {
                let ev = TraceEvent::exception(
                    self.module.as_str(),
                    self.function.as_str(),
                    m.as_str(),
                    duration,
                    self.thread.as_str(),
                );
                Some(ev)
            },
            None => {
                let result: Option<String> = if self.tags.len() == 0 {
                    proof {
                        assert(self.tag_model().len() == 0);
                    }
                    Some(String::from_str("()"))
                } else {
                    Some(self.tags_snapshot_string())
                };
                let ev = TraceEvent::exit(
                    self.module.as_str(),
                    self.function.as_str(),
                    result,
                    duration,
                    self.thread.as_str(),
                );
                Some(ev)
            },
        }
    }

    /// The snapshot of the current tag map, in insertion order.
    pub fn tags_snapshot_string(&self) -> (r: String)
        ensures
            r@ == tags_snapshot(self.tag_model()),
    {
        let ghost s = self.tag_model();
        let mut out = String::new();
        out.append("{");
        proof {
            reveal_strlit("{");
            assert("{"@ =~= seq!['{']);
            assert(s.take(0) =~= Seq::<(Seq<char>, Seq<char>)>::empty());
        }
        let mut k: usize = 0;
        while k < self.tags.len()
            invariant
                k <= self.tags@.len(),
                s == pair_views(self.tags@),
                s.len() == self.tags@.len(),
                out@ == seq!['{'] + tag_entries(s.take(k as int)),
            decreases self.tags@.len() - k,
        {
            proof {
                assert(s.take(k as int + 1).drop_last() =~= s.take(k as int));
                assert(s.take(k as int + 1).last() == s[k as int]);
                assert(s[k as int] == (self.tags@[k as int].0@, self.tags@[k as int].1@));
            }
            if k > 0 {
                out.append(", ");
                proof {
                    reveal_strlit(", ");
                    assert(", "@ =~= seq![',', ' ']);
                }
            }
            crate::jsonl::push_json_string(&mut out, self.tags[k].0.as_str());
            out.append(": ");
            crate::jsonl::push_json_string(&mut out, self.tags[k].1.as_str());
            proof {
                if k == 0 {
                    assert(out@ =~= seq!['{'] + tag_entries(s.take(1)));
                } else {
                    assert(out@ =~= seq!['{'] + tag_entries(s.take(k as int + 1)));
                }
            }
            k = k + 1;
        }
        out.append("}");
        proof {
            reveal_strlit("}");
            assert("}"@ =~= seq!['}']);
            assert(s.take(s.len() as int) =~= s);
            assert(out@ =~= tags_snapshot(s));
        }
        out
    }
}

/// Open a span: the fresh span together with the enter record to log.
pub fn start_span(module: &str, function: &str, thread: &str) -> (r: (Span, TraceEvent))
    ensures
        r.0.wf(),
        !r.0.ended,
        r.0.module@ == module@,
        r.0.function@ == function@,
        r.0.error is None,
        r.0.tag_model() == Seq::<(Seq<char>, Seq<char>)>::empty(),
        r.0.thread@ == thread@,
        r.1.well_formed(),
        r.1.event_type == EventType::Enter,
        r.1.module@ == module@,
        r.1.function@ == function@,
        r.1.args is None,
        r.1.thread@ == thread@,
{
    Span::new(module, function, thread)
}

} // verus!

//! The source scanner: per-file parsing and classification, and the running
//! totals aggregated across files by pure summation.

use vstd::prelude::*;
use crate::ast;
use crate::classify::should_instrument;
use crate::descriptor::{FnModel, items_fns, spec_instrumented, spec_eligible};
use crate::errors::FlowError;
use crate::extract::{collect_file_fns, descs_models};
use crate::strutil::{count_lines, line_count};

verus! {

/// Running totals of one scan.
#[derive(Debug, Clone)]
pub struct AnalysisStats {
    pub total_files: usize,
    pub total_functions: usize,
    pub instrumentable_functions: usize,
    pub instrumented_functions: usize,
    pub total_lines: usize,
    pub async_functions: usize,
    pub sync_functions: usize,
    pub public_functions: usize,
    pub private_functions: usize,
}

/// The mathematical view of the totals, unbounded.
#[verifier::ext_equal]
pub struct StatsModel {
    pub total_files: nat,
    pub total_functions: nat,
    pub instrumentable_functions: nat,
    pub instrumented_functions: nat,
    pub total_lines: nat,
    pub async_functions: nat,
    pub sync_functions: nat,
    pub public_functions: nat,
    pub private_functions: nat,
}

impl AnalysisStats {
    pub open spec fn model(&self) -> StatsModel {
        StatsModel {
            total_files: self.total_files as nat,
            total_functions: self.total_functions as nat,
            instrumentable_functions: self.instrumentable_functions as nat,
            instrumented_functions: self.instrumented_functions as nat,
            total_lines: self.total_lines as nat,
            async_functions: self.async_functions as nat,
            sync_functions: self.sync_functions as nat,
            public_functions: self.public_functions as nat,
            private_functions: self.private_functions as nat,
        }
    }

    /// Fresh totals, all zero.
    pub fn new() -> (r: AnalysisStats)
        ensures
            r.model() == zero_stats(),
    {
        AnalysisStats {
            total_files: 0,
            total_functions: 0,
            instrumentable_functions: 0,
            instrumented_functions: 0,
            total_lines: 0,
            async_functions: 0,
            sync_functions: 0,
            public_functions: 0,
            private_functions: 0,
        }
    }
}

impl Default for AnalysisStats {
    fn default() -> (r: AnalysisStats)
        ensures
            r.model() == zero_stats(),
    {
        AnalysisStats::new()
    }
}

pub open spec fn zero_stats() -> StatsModel {
    StatsModel {
        total_files: 0,
        total_functions: 0,
        instrumentable_functions: 0,
        instrumented_functions: 0,
        total_lines: 0,
        async_functions: 0,
        sync_functions: 0,
        public_functions: 0,
        private_functions: 0,
    }
}

/// Addition that saturates at the machine's limit instead of overflowing.
pub open spec fn cap_add(a: nat, b: nat) -> nat {
    if a + b <= usize::MAX as nat {
        a + b
    } else {
        usize::MAX as nat
    }
}

fn add_cap(a: usize, b: usize) -> (r: usize)
    ensures
        r as nat == cap_add(a as nat, b as nat),
{
    if a <= usize::MAX - b {
        a + b
    } else {
        usize::MAX
    }
}

/// How many functions of `fns` satisfy `p`.
pub open spec fn count_where(fns: Seq<FnModel>, p: spec_fn(FnModel) -> bool) -> nat
    decreases fns.len(),
{
    if fns.len() == 0 {
        0
    } else {
        count_where(fns.drop_last(), p) + (if p(fns.last()) {
            1nat
        } else {
            0nat
        })
    }
}

proof fn lemma_count_where_take_succ(fns: Seq<FnModel>, p: spec_fn(FnModel) -> bool, k: int)
    requires
        0 <= k < fns.len(),
    ensures
        count_where(fns.take(k + 1), p) == count_where(fns.take(k), p) + (if p(fns[k]) {
            1nat
        } else {
            0nat
        }),
{
    assert(fns.take(k + 1).drop_last() =~= fns.take(k));
    assert(fns.take(k + 1).last() == fns[k]);
}

proof fn lemma_count_where_le(fns: Seq<FnModel>, p: spec_fn(FnModel) -> bool)
    ensures
        count_where(fns, p) <= fns.len(),
    decreases fns.len(),
{
    if fns.len() > 0 {
        lemma_count_where_le(fns.drop_last(), p);
    }
}

pub open spec fn spec_is_async(f: FnModel) -> bool {
    f.is_async
}

pub open spec fn spec_is_sync(f: FnModel) -> bool {
    !f.is_async
}

pub open spec fn spec_is_public(f: FnModel) -> bool {
    f.is_public
}

pub open spec fn spec_is_private(f: FnModel) -> bool {
    !f.is_public
}

/// The totals after scanning one text of functions `fns` and `lines`
/// physical lines, starting from `s`.
pub open spec fn stats_plus_file(s: StatsModel, fns: Seq<FnModel>, lines: nat) -> StatsModel {
    StatsModel {
        total_files: cap_add(s.total_files, 1),
        total_functions: cap_add(s.total_functions, fns.len()),
        instrumentable_functions: cap_add(
            s.instrumentable_functions,
            count_where(fns, |f: FnModel| spec_eligible(f)),
        ),
        instrumented_functions: cap_add(
            s.instrumented_functions,
            count_where(fns, |f: FnModel| spec_instrumented(f)),
        ),
        total_lines: cap_add(s.total_lines, lines),
        async_functions: cap_add(s.async_functions, count_where(fns, |f: FnModel| spec_is_async(f))),
        sync_functions: cap_add(s.sync_functions, count_where(fns, |f: FnModel| spec_is_sync(f))),
        public_functions: cap_add(
            s.public_functions,
            count_where(fns, |f: FnModel| spec_is_public(f)),
        ),
        private_functions: cap_add(
            s.private_functions,
            count_where(fns, |f: FnModel| spec_is_private(f)),
        ),
    }
}

/// The totals after scanning a list of texts in order, provided every one of
/// them parses.
pub open spec fn scan_fold(s: StatsModel, texts: Seq<Seq<char>>) -> StatsModel
    decreases texts.len(),
{
    if texts.len() == 0 {
        s
    } else {
        scan_fold(
            stats_plus_file(
                s,
                items_fns(ast::parsed_model(texts[0])->Some_0),
                line_count(texts[0]),
            ),
            texts.drop_first(),
        )
    }
}

/// Every text in the list parses.
pub open spec fn all_parse(texts: Seq<Seq<char>>) -> bool {
    forall|i: int| 0 <= i < texts.len() ==> ast::parsed_model(#[trigger] texts[i]) is Some
}

/// The scanner.  It holds no state of its own; the totals accumulate in an
/// [`AnalysisStats`] value.
pub struct Analyzer;

impl Analyzer {
    pub fn new() -> (r: Analyzer) {
        Analyzer
    }

    /// Scan one source text: count its physical lines, parse it, classify
    /// every function reachable from its items (descending into function
    /// bodies, impl blocks and inline modules), and add everything to
    /// `stats`.
    ///
    /// Fails with `ParseError`, leaving `stats` untouched, exactly when the
    /// text is not syntactically valid Rust.
    pub fn analyze_source(&self, text: &str, stats: &mut AnalysisStats) -> (r: Result<
        (),
        FlowError,
    >)
        ensures
            (r is Ok) == (ast::parsed_model(text@) is Some),
            (r is Err ==> r->Err_0 is ParseError && *final(stats) == *old(stats)),
            (ast::parsed_model(text@) matches Some(items) ==> final(stats).model()
                == stats_plus_file(old(stats).model(), items_fns(items), line_count(text@))),
    {
        let parsed = match ast::parse_source_file(text) {
            Ok(f) => f,
            Err(e) => {
                let msg = ast::syn_error_message(&e);
                return Err(FlowError::ParseError(msg));
            },
        };
        let lines = count_lines(text);
        let descs = collect_file_fns(&parsed);
        let ghost fns = items_fns(ast::file_model(parsed));
        stats.total_files = add_cap(stats.total_files, 1);
        stats.total_lines = add_cap(stats.total_lines, lines);
        let ghost s1 = stats.model();

        let mut total: usize = 0;
        let mut instrumentable: usize = 0;
        let mut instrumented: usize = 0;
        let mut asyncs: usize = 0;
        let mut syncs: usize = 0;
        let mut publics: usize = 0;
        let mut privates: usize = 0;
        let mut k: usize = 0;
        proof {
            assert(fns.take(0) =~= Seq::<FnModel>::empty());
        }
        while k < descs.len()
            invariant
                k <= descs@.len(),
                fns.len() == descs@.len(),
                fns == descs_models(descs@),
                total as nat == fns.take(k as int).len(),
                instrumentable as nat == count_where(
                    fns.take(k as int),
                    |f: FnModel| spec_eligible(f),
                ),
                instrumented as nat == count_where(
                    fns.take(k as int),
                    |f: FnModel| spec_instrumented(f),
                ),
                asyncs as nat == count_where(fns.take(k as int), |f: FnModel| spec_is_async(f)),
                syncs as nat == count_where(fns.take(k as int), |f: FnModel| spec_is_sync(f)),
                publics as nat == count_where(fns.take(k as int), |f: FnModel| spec_is_public(f)),
                privates as nat == count_where(fns.take(k as int), |f: FnModel| spec_is_private(f)),
            decreases descs@.len() - k,
        {
            proof {
                lemma_count_where_take_succ(fns, |f: FnModel| spec_eligible(f), k as int);
                lemma_count_where_take_succ(fns, |f: FnModel| spec_instrumented(f), k as int);
                lemma_count_where_take_succ(fns, |f: FnModel| spec_is_async(f), k as int);
                lemma_count_where_take_succ(fns, |f: FnModel| spec_is_sync(f), k as int);
                lemma_count_where_take_succ(fns, |f: FnModel| spec_is_public(f), k as int);
                lemma_count_where_take_succ(fns, |f: FnModel| spec_is_private(f), k as int);
                lemma_count_where_le(fns.take(k as int), |f: FnModel| spec_eligible(f));
                lemma_count_where_le(fns.take(k as int), |f: FnModel| spec_instrumented(f));
                lemma_count_where_le(fns.take(k as int), |f: FnModel| spec_is_async(f));
                lemma_count_where_le(fns.take(k as int), |f: FnModel| spec_is_sync(f));
                lemma_count_where_le(fns.take(k as int), |f: FnModel| spec_is_public(f));
                lemma_count_where_le(fns.take(k as int), |f: FnModel| spec_is_private(f));
                assert(fns[k as int] == descs@[k as int].model());
            }
            let d = &descs[k];
            total = total + 1;
            if should_instrument(d) {
                instrumentable = instrumentable + 1;
            }
            if crate::classify::has_trace_attribute(d) {
                instrumented = instrumented + 1;
            }
            if d.is_async {
                asyncs = asyncs + 1;
            } else {
                syncs = syncs + 1;
            }
            if d.is_public {
                publics = publics + 1;
            } else {
                privates = privates + 1;
            }
            k = k + 1;
        }
        proof {
            assert(fns.take(fns.len() as int) =~= fns);
        }
        stats.total_functions = add_cap(stats.total_functions, total);
        stats.instrumentable_functions = add_cap(stats.instrumentable_functions, instrumentable);
        stats.instrumented_functions = add_cap(stats.instrumented_functions, instrumented);
        stats.async_functions = add_cap(stats.async_functions, asyncs);
        stats.sync_functions = add_cap(stats.sync_functions, syncs);
        stats.public_functions = add_cap(stats.public_functions, publics);
        stats.private_functions = add_cap(stats.private_functions, privates);
        proof {
            assert(stats.model() =~= stats_plus_file(
                old(stats).model(),
                fns,
                line_count(text@),
            ));
        }
        Ok(())
    }

    /// Scan a list of source texts in order, aborting on the first one that
    /// does not parse: no partial totals are kept.
    pub fn analyze_files(&self, texts: &Vec<String>) -> (r: Result<AnalysisStats, FlowError>)
        ensures
            (r is Ok) == all_parse(text_views(texts@)),
            (r is Err ==> r->Err_0 is ParseError),
            (r matches Ok(stats) ==> stats.model() == scan_fold(
                zero_stats(),
                text_views(texts@),
            )),
    {
        let mut stats = AnalysisStats::new();
        let ghost views = text_views(texts@);
        let mut k: usize = 0;
        proof {
            assert(views.skip(0) =~= views);
        }
        while k < texts.len()
            invariant
                k <= texts@.len(),
                views == text_views(texts@),
                views.len() == texts@.len(),
                forall|i: int| 0 <= i < k ==> ast::parsed_model(#[trigger] views[i]) is Some,
                scan_fold(zero_stats(), views) == scan_fold(stats.model(), views.skip(k as int)),
            decreases texts@.len() - k,
        {
            proof {
                assert(views[k as int] == texts@[k as int]@);
                assert(views.skip(k as int)[0] == views[k as int]);
                assert(views.skip(k as int).drop_first() =~= views.skip(k as int + 1));
            }
            match self.analyze_source(texts[k].as_str(), &mut stats) {
                Ok(_) => {},
                Err(e) => {
                    return Err(e);
                },
            }
            k = k + 1;
        }
        proof {
            assert(views.skip(views.len() as int).len() == 0);
        }
        Ok(stats)
    }
}

/// The character views of a list of texts.
pub open spec fn text_views(texts: Seq<String>) -> Seq<Seq<char>> {
    Seq::new(texts.len(), |i: int| texts[i]@)
}

} // verus!

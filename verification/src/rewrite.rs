//! The source rewriter: select every eligible top-level function and inject
//! the instrumentation marker, leaving all other text alone.

use vstd::prelude::*;
use crate::ast;
use crate::classify::should_instrument;
use crate::descriptor::{ItemModel, spec_eligible, spec_marked};
use crate::errors::FlowError;
use crate::extract::descriptor_of_fn;
use crate::strutil::string_views;

verus! {

/// What one rewrite pass selected: how many functions, their names in
/// declaration order, and the backup path when the caller made a copy of the
/// original file first.
#[derive(Debug)]
pub struct InstrumentResult {
    pub count: usize,
    pub functions: Vec<String>,
    pub backup_path: Option<String>,
}

/// The names of the eligible top-level functions of `items`, in order.
pub open spec fn selected_names(items: Seq<ItemModel>) -> Seq<Seq<char>>
    decreases items.len(),
{
    if items.len() == 0 {
        Seq::empty()
    } else {
        selected_names(items.drop_last()) + (match items.last() {
            ItemModel::Fn(f, _) => if spec_eligible(f) {
                seq![f.name]
            } else {
                Seq::empty()
            },
            _ => Seq::empty(),
        })
    }
}

/// One item after the rewrite pass: an eligible top-level function gains the
/// marker, everything else is untouched.
pub open spec fn mark_item(m: ItemModel) -> ItemModel {
    match m {
        ItemModel::Fn(f, body) => if spec_eligible(f) {
            ItemModel::Fn(spec_marked(f), body)
        } else {
            m
        },
        _ => m,
    }
}

/// The items after the rewrite pass.
pub open spec fn mark_eligible(items: Seq<ItemModel>) -> Seq<ItemModel> {
    Seq::new(items.len(), |i: int| mark_item(items[i]))
}

/// Is `text` the printed form of a syntax tree whose items are `items`?
pub open spec fn is_print_of(text: Seq<char>, items: Seq<ItemModel>) -> bool {
    exists|f: syn::File| ast::file_model(f) == items && text == ast::source_of(f)
}

proof fn lemma_selected_names_take_succ(items: Seq<ItemModel>, k: int)
    requires
        0 <= k < items.len(),
    ensures
        selected_names(items.take(k + 1)) == selected_names(items.take(k)) + (match items[k] {
            ItemModel::Fn(f, _) => if spec_eligible(f) {
                seq![f.name]
            } else {
                Seq::<Seq<char>>::empty()
            },
            _ => Seq::<Seq<char>>::empty(),
        }),
{
    assert(items.take(k + 1).drop_last() =~= items.take(k));
    assert(items.take(k + 1).last() == items[k]);
}

/// A second rewrite pass over already-rewritten items selects nothing: every
/// function the first pass marked is now instrumented, and every function it
/// skipped is still ineligible for the same reason.
pub proof fn lemma_rewrite_idempotent(items: Seq<ItemModel>)
    ensures
        selected_names(mark_eligible(items)).len() == 0,
    decreases items.len(),
{
    let marked = mark_eligible(items);
    if items.len() > 0 {
        lemma_rewrite_idempotent(items.drop_last());
        assert(mark_eligible(items.drop_last()) =~= marked.drop_last());
        match items.last() {
            ItemModel::Fn(f, body) => {
                if spec_eligible(f) {
                    crate::descriptor::lemma_marked_not_eligible(f);
                    assert(marked.last() == ItemModel::Fn(spec_marked(f), body));
                } else {
                    assert(marked.last() == items.last());
                }
            },
            _ => {
                assert(marked.last() == items.last());
            },
        }
    }
}

/// A second rewrite pass also mutates nothing: marking what one pass marked
/// leaves every item exactly as it was.
pub proof fn lemma_mark_idempotent(items: Seq<ItemModel>)
    ensures
        mark_eligible(mark_eligible(items)) == mark_eligible(items),
{
    let once = mark_eligible(items);
    assert forall|i: int| 0 <= i < once.len() implies #[trigger] mark_item(once[i]) == once[i] by {
        match items[i] {
            ItemModel::Fn(f, _) => {
                if spec_eligible(f) {
                    crate::descriptor::lemma_marked_not_eligible(f);
                }
            },
            _ => {},
        }
    }
    assert(mark_eligible(once) =~= once);
}

/// The rewriter.  `create_backup` is advisory for the caller that owns the
/// file: this type only selects and mutates source text.
pub struct Instrumenter {
    pub create_backup: bool,
}

impl Instrumenter {
    pub fn new(create_backup: bool) -> (r: Instrumenter)
        ensures
            r.create_backup == create_backup,
    {
        Instrumenter { create_backup }
    }

    /// One rewrite pass over a source text.
    ///
    /// Fails with `ParseError` exactly when the text is not syntactically
    /// valid Rust.  Otherwise the result lists the name of every eligible
    /// top-level function, in declaration order.  With `dry_run` no new text
    /// is produced; likewise when nothing was selected.  Otherwise the new
    /// text is the tree printed back with every selected function marked.
    pub fn instrument_source(&self, text: &str, dry_run: bool) -> (r: Result<
        (InstrumentResult, Option<String>),
        FlowError,
    >)
        ensures
            (r is Ok) == (ast::parsed_model(text@) is Some),
            (r is Err ==> r->Err_0 is ParseError),
            (r matches Ok((res, new_text)) ==> (ast::parsed_model(text@) matches Some(items)
                && string_views(res.functions@) == selected_names(items) && res.count
                == selected_names(items).len() && res.backup_path is None && ((dry_run
                || selected_names(items).len() == 0) <==> new_text is None) && (new_text matches Some(t)
                ==> is_print_of(t@, mark_eligible(items))))),
    {
        let mut file = match ast::parse_source_file(text) {
            Ok(f) => f,
            Err(e) => {
                let msg = ast::syn_error_message(&e);
                return Err(FlowError::ParseError(msg));
            },
        };
        let ghost items0 = ast::file_model(file);
        let items = ast::file_items(&file);
        let mut functions: Vec<String> = Vec::new();
        let mut k: usize = 0;
        proof {
            assert(items0.take(0) =~= Seq::<ItemModel>::empty());
            assert(string_views(functions@) =~= selected_names(items0.take(0)));
        }
        while k < items.len()
            invariant
                k <= items@.len(),
                items0.len() == items@.len(),
                forall|i: int|
                    0 <= i < items@.len() ==> ast::item_model(#[trigger] items@[i]) == items0[i],
                string_views(functions@) == selected_names(items0.take(k as int)),
                ast::file_model(file).len() == items0.len(),
                forall|j: int|
                    k <= j < items0.len() ==> ast::file_model(file)[j] == items0[j],
                forall|j: int|
                    0 <= j < k ==> ast::file_model(file)[j] == (if dry_run {
                        items0[j]
                    } else {
                        mark_item(items0[j])
                    }),
            decreases items@.len() - k,
        {
            proof {
                lemma_selected_names_take_succ(items0, k as int);
            }
            if let Some(g) = ast::item_as_fn(&items[k]) {
                let d = descriptor_of_fn(&g);
                if should_instrument(&d) {
                    functions.push(d.name);
                    proof {
                        assert(string_views(functions@) =~= selected_names(
                            items0.take(k as int + 1),
                        ));
                    }
                    if !dry_run {
                        ast::file_mark_fn(&mut file, k, "#[trace]");
                    }
                }
            }
            k = k + 1;
        }
        proof {
            assert(items0.take(items0.len() as int) =~= items0);
        }
        let count = functions.len();
        let new_text: Option<String> = if !dry_run && count > 0 {
            proof {
                assert(ast::file_model(file) =~= mark_eligible(items0));
            }
            Some(ast::file_to_source(&file))
        } else {
            None
        };
        Ok((InstrumentResult { count, functions, backup_path: None }, new_text))
    }
}

} // verus!

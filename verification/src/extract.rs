//! Turning a parsed syntax tree into plain function descriptors, in
//! declaration order, descending into function bodies, impl blocks and
//! inline modules.

use vstd::prelude::*;
use crate::ast;
use crate::descriptor::{
    FnDescriptor, FnModel, ItemModel, items_fns, item_fns, member_fns, stmt_items_fns,
    lemma_items_fns_take_succ, lemma_member_fns_take_succ, lemma_stmt_items_fns_take_succ,
};
use crate::errors::FlowError;

verus! {

/// The models of a list of descriptors.
pub open spec fn descs_models(s: Seq<FnDescriptor>) -> Seq<FnModel> {
    Seq::new(s.len(), |i: int| s[i].model())
}

proof fn lemma_descs_models_push(s: Seq<FnDescriptor>, d: FnDescriptor)
    ensures
        descs_models(s.push(d)) == descs_models(s).push(d.model()),
{
    assert(descs_models(s.push(d)) =~= descs_models(s).push(d.model()));
}

/// Read one function's structural description out of the syntax tree.
pub(crate) fn descriptor_of_fn(g: &syn::ItemFn) -> (d: FnDescriptor)
    ensures
        d.model() == ast::fn_model(*g),
{
    let name = ast::fn_name(g);
    let is_public = ast::fn_is_public(g);
    let is_async = ast::fn_is_async(g);
    let stmt_count = ast::fn_stmt_count(g);
    let n = ast::fn_attr_count(g);
    let mut markers: Vec<String> = Vec::new();
    let mut i: usize = 0;
    while i < n
        invariant
            i <= n,
            n as nat == ast::fn_model(*g).markers.len(),
            markers@.len() == i as nat,
            forall|j: int| 0 <= j < i ==> markers@[j]@ == ast::fn_model(*g).markers[j],
        decreases n - i,
    {
        markers.push(ast::fn_attr_path(g, i));
        i = i + 1;
    }
    let d = FnDescriptor { name, is_public, is_async, stmt_count, markers };
    proof {
        assert(d.model().markers =~= ast::fn_model(*g).markers);
        assert(d.model() =~= ast::fn_model(*g));
    }
    d
}

/// Append every function reachable from one item to `out`.
fn collect_item_fns(it: &syn::Item, out: &mut Vec<FnDescriptor>)
    ensures
        descs_models(final(out)@) == descs_models(old(out)@) + item_fns(ast::item_model(*it)),
    decreases ast::item_model(*it),
{
    let ghost m0 = descs_models(old(out)@);
    if let Some(g) = ast::item_as_fn(it) {
        let ghost fm = ast::fn_model(g);
        let ghost body = ast::fn_body_model(g);
        let d = descriptor_of_fn(&g);
        proof {
            lemma_descs_models_push(out@, d);
        }
        out.push(d);
        proof {
            assert(descs_models(out@) =~= m0 + seq![fm]);
            assert(body.take(0) =~= Seq::<Option<ItemModel>>::empty());
            assert(descs_models(out@) =~= m0 + seq![fm] + stmt_items_fns(body.take(0)));
        }
        let n = ast::fn_body_stmt_count(&g);
        let mut j: usize = 0;
        while j < n
            invariant
                j <= n,
                n as nat == body.len(),
                body == ast::fn_body_model(g),
                fm == ast::fn_model(g),
                ast::item_model(*it) == ItemModel::Fn(fm, body),
                descs_models(out@) == m0 + seq![fm] + stmt_items_fns(body.take(j as int)),
            decreases n - j,
        {
            proof {
                lemma_stmt_items_fns_take_succ(body, j as int);
            }
            match ast::fn_body_stmt_item(&g, j) {
                Some(inner) => {
                    proof {
                        assert(decreases_to!(ast::item_model(*it) => ast::item_model(*it)->Fn_1));
                        assert(ast::item_model(*it)->Fn_1 == body);
                        assert(decreases_to!(body => body[j as int]));
                        assert(decreases_to!(body[j as int] => body[j as int]->0));
                        assert(body[j as int]->0 == ast::item_model(inner));
                    }
                    collect_item_fns(&inner, out);
                    proof {
                        assert(descs_models(out@) =~= m0 + seq![fm] + stmt_items_fns(
                            body.take(j as int + 1),
                        ));
                    }
                },
                None => {
                    proof {
                        assert(descs_models(out@) =~= m0 + seq![fm] + stmt_items_fns(
                            body.take(j as int + 1),
                        ));
                    }
                },
            }
            j = j + 1;
        }
        proof {
            assert(body.take(body.len() as int) =~= body);
            assert(descs_models(out@) =~= m0 + item_fns(ast::item_model(*it)));
        }
    } else if let Some(members) = ast::item_impl_members(it) {
        let ghost ms = (match ast::item_model(*it) {
            ItemModel::Impl(s) => s,
            _ => Seq::empty(),
        });
        let mut k: usize = 0;
        proof {
            assert(ms.take(0) =~= Seq::<Option<FnModel>>::empty());
        }
        while k < members.len()
            invariant
                k <= members@.len(),
                ms.len() == members@.len(),
                forall|i: int|
                    0 <= i < members@.len() ==> ast::impl_member_model(#[trigger] members@[i])
                        == ms[i],
                descs_models(out@) == m0 + member_fns(ms.take(k as int)),
            decreases members@.len() - k,
        {
            proof {
                lemma_member_fns_take_succ(ms, k as int);
            }
            if let Some(g) = ast::impl_member_as_fn(&members[k]) {
                let d = descriptor_of_fn(&g);
                proof {
                    lemma_descs_models_push(out@, d);
                }
                out.push(d);
            }
            k = k + 1;
        }
        proof {
            assert(ms.take(ms.len() as int) =~= ms);
        }
    } else if let Some(inner) = ast::item_mod_items(it) {
        let ghost ims = (match ast::item_model(*it) {
            ItemModel::Mod(s) => s,
            _ => Seq::empty(),
        });
        let mut k: usize = 0;
        proof {
            assert(ims.take(0) =~= Seq::<ItemModel>::empty());
        }
        while k < inner.len()
            invariant
                k <= inner@.len(),
                ims.len() == inner@.len(),
                ast::item_model(*it) == ItemModel::Mod(ims),
                forall|i: int|
                    0 <= i < inner@.len() ==> ast::item_model(#[trigger] inner@[i]) == ims[i],
                descs_models(out@) == m0 + items_fns(ims.take(k as int)),
            decreases inner@.len() - k,
        {
            proof {
                lemma_items_fns_take_succ(ims, k as int);
                assert(decreases_to!(ast::item_model(*it) => ast::item_model(*it)->Mod_0));
                assert(ast::item_model(*it)->Mod_0 == ims);
                assert(decreases_to!(ims => ims[k as int]));
            }
            collect_item_fns(&inner[k], out);
            k = k + 1;
        }
        proof {
            assert(ims.take(ims.len() as int) =~= ims);
        }
    } else {
        proof {
            assert(descs_models(out@) =~= m0 + item_fns(ast::item_model(*it)));
        }
    }
}

/// Every function of a parsed file, in declaration order.
pub(crate) fn collect_file_fns(f: &syn::File) -> (out: Vec<FnDescriptor>)
    ensures
        descs_models(out@) == items_fns(ast::file_model(*f)),
{
    let items = ast::file_items(f);
    let ghost fm = ast::file_model(*f);
    let mut out: Vec<FnDescriptor> = Vec::new();
    let mut k: usize = 0;
    proof {
        assert(fm.take(0) =~= Seq::<ItemModel>::empty());
        assert(descs_models(out@) =~= Seq::<FnModel>::empty());
    }
    while k < items.len()
        invariant
            k <= items@.len(),
            fm.len() == items@.len(),
            fm == ast::file_model(*f),
            forall|i: int| 0 <= i < items@.len() ==> ast::item_model(#[trigger] items@[i]) == fm[i],
            descs_models(out@) == items_fns(fm.take(k as int)),
        decreases items@.len() - k,
    {
        proof {
            lemma_items_fns_take_succ(fm, k as int);
        }
        collect_item_fns(&items[k], &mut out);
        k = k + 1;
    }
    proof {
        assert(fm.take(fm.len() as int) =~= fm);
    }
    out
}

/// Parse a source text and hand back the description of every function in
/// it, in declaration order, descending into function bodies, impl blocks
/// and inline modules.  Fails with `ParseError` exactly when the text is
/// not syntactically valid Rust.
pub fn descriptors_of_source(text: &str) -> (r: Result<Vec<FnDescriptor>, FlowError>)
    ensures
        (r is Ok) == (ast::parsed_model(text@) is Some),
        (r is Err ==> r->Err_0 is ParseError),
        (r matches Ok(descs) ==> (ast::parsed_model(text@) matches Some(items) && descs_models(
            descs@,
        ) == items_fns(items))),
{
    match ast::parse_source_file(text) {
        Ok(f) => Ok(collect_file_fns(&f)),
        Err(e) => {
            let msg = ast::syn_error_message(&e);
            Err(FlowError::ParseError(msg))
        },
    }
}

} // verus!

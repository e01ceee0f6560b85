//! The trusted boundary to the `syn` parser and the `quote` printer.
//!
//! Everything the scanner and rewriter know about Rust syntax comes through
//! the items in this module.  Each wrapper makes exactly one call into the
//! outside crate; its contract relates the call to the uninterpreted model
//! functions below, which give the parsed file's contents as plain values.

use vstd::prelude::*;
use quote::ToTokens;
use syn::parse::Parser;
use crate::descriptor::{FnModel, ItemModel, spec_marked};

verus! {

#[verifier::external_type_specification]
#[verifier::external_body]
pub struct ExSynFile(syn::File);

#[verifier::external_type_specification]
#[verifier::external_body]
pub struct ExSynItem(syn::Item);

#[verifier::external_type_specification]
#[verifier::external_body]
pub struct ExSynItemFn(syn::ItemFn);

#[verifier::external_type_specification]
#[verifier::external_body]
pub struct ExSynImplItem(syn::ImplItem);

#[verifier::external_type_specification]
#[verifier::external_body]
pub struct ExSynError(syn::Error);

/// What `syn::parse_file` yields for a text: `None` when the text is not
/// syntactically valid Rust, otherwise the models of the file's items.
pub uninterp spec fn parsed_model(text: Seq<char>) -> Option<Seq<ItemModel>>;

/// The models of a parsed file's top-level items, in declaration order.
pub uninterp spec fn file_model(f: syn::File) -> Seq<ItemModel>;

/// The model of one item.
pub uninterp spec fn item_model(it: syn::Item) -> ItemModel;

/// The model of one impl-block member: `Some` for an associated function.
pub uninterp spec fn impl_member_model(m: syn::ImplItem) -> Option<FnModel>;

/// The model of one free function item.
pub uninterp spec fn fn_model(g: syn::ItemFn) -> FnModel;

/// The models of a function body's statements, `Some` where a statement
/// declares an item.
pub uninterp spec fn fn_body_model(g: syn::ItemFn) -> Seq<Option<ItemModel>>;

/// The text that printing a syntax tree back to source produces.
pub uninterp spec fn source_of(f: syn::File) -> Seq<char>;

/// Relies on `syn::parse_file`: parsing is a pure function of the text, so
/// whether it succeeds, and the items it yields, depend on the text alone.
#[verifier::external_body]
pub(crate) fn parse_source_file(text: &str) -> (r: Result<syn::File, syn::Error>)
    ensures
        (r is Ok) == (parsed_model(text@) is Some),
        (r matches Ok(f) ==> (parsed_model(text@) matches Some(m) && file_model(f) == m)),
{
    syn::parse_file(text)
}

/// Relies on `syn::Error`'s `Display` impl for a description of the failure.
#[verifier::external_body]
pub(crate) fn syn_error_message(e: &syn::Error) -> String {
    e.to_string()
}

/// Relies on the `items` field of `syn::File`: the file's items in order.
#[verifier::external_body]
pub(crate) fn file_items(f: &syn::File) -> (r: Vec<syn::Item>)
    ensures
        r@.len() == file_model(*f).len(),
        forall|i: int| 0 <= i < r@.len() ==> item_model(#[trigger] r@[i]) == file_model(*f)[i],
{
    f.items.clone()
}

/// Relies on the `syn::Item::Fn` variant: a free `fn` item and nothing else.
#[verifier::external_body]
pub(crate) fn item_as_fn(it: &syn::Item) -> (r: Option<syn::ItemFn>)
    ensures
        (r matches Some(g) ==> item_model(*it) == ItemModel::Fn(fn_model(g), fn_body_model(g))),
        (r is None ==> !(item_model(*it) is Fn)),
{
    match it {
        syn::Item::Fn(g) => Some(g.clone()),
        _ => None,
    }
}

/// Relies on the `syn::Item::Impl` variant: the impl block's members.
#[verifier::external_body]
pub(crate) fn item_impl_members(it: &syn::Item) -> (r: Option<Vec<syn::ImplItem>>)
    ensures
        (r matches Some(v) ==> (item_model(*it) matches ItemModel::Impl(ms) && ms.len()
            == v@.len() && forall|i: int|
            0 <= i < v@.len() ==> impl_member_model(#[trigger] v@[i]) == ms[i])),
        (r is None ==> !(item_model(*it) is Impl)),
{
    match it {
        syn::Item::Impl(im) => Some(im.items.clone()),
        _ => None,
    }
}

/// Relies on the `syn::Item::Mod` variant: the items of an inline module.
/// A module declaration without a body is not an inline module.
#[verifier::external_body]
pub(crate) fn item_mod_items(it: &syn::Item) -> (r: Option<Vec<syn::Item>>)
    ensures
        (r matches Some(v) ==> (item_model(*it) matches ItemModel::Mod(inner) && inner.len()
            == v@.len() && forall|i: int|
            0 <= i < v@.len() ==> item_model(#[trigger] v@[i]) == inner[i])),
        (r is None ==> !(item_model(*it) is Mod)),
{
    match it {
        syn::Item::Mod(m) => match &m.content {
            Some(c) => Some(c.1.clone()),
            None => None,
        },
        _ => None,
    }
}

/// Relies on the `syn::ImplItem::Fn` variant: an associated function has the
/// same shape as a free one, so it is handed back as a `syn::ItemFn`.
#[verifier::external_body]
pub(crate) fn impl_member_as_fn(m: &syn::ImplItem) -> (r: Option<syn::ItemFn>)
    ensures
        (r matches Some(g) ==> impl_member_model(*m) == Some(fn_model(g))),
        (r is None ==> impl_member_model(*m) is None),
{
    match m {
        syn::ImplItem::Fn(f) => Some(syn::ItemFn {
            attrs: f.attrs.clone(),
            vis: f.vis.clone(),
            sig: f.sig.clone(),
            block: Box::new(f.block.clone()),
        }),
        _ => None,
    }
}

/// Relies on `syn::Ident`'s `Display` impl: the function's name.
#[verifier::external_body]
pub(crate) fn fn_name(g: &syn::ItemFn) -> (r: String)
    ensures
        r@ == fn_model(*g).name,
{
    g.sig.ident.to_string()
}

/// Relies on the `asyncness` field of `syn::Signature`.
#[verifier::external_body]
pub(crate) fn fn_is_async(g: &syn::ItemFn) -> (r: bool)
    ensures
        r == fn_model(*g).is_async,
{
    g.sig.asyncness.is_some()
}

/// Relies on the `syn::Visibility::Public` variant: a plain `pub` function.
#[verifier::external_body]
pub(crate) fn fn_is_public(g: &syn::ItemFn) -> (r: bool)
    ensures
        r == fn_model(*g).is_public,
{
    match g.vis {
        syn::Visibility::Public(_) => true,
        _ => false,
    }
}

/// Relies on the `stmts` field of `syn::Block`: the body's statement count.
#[verifier::external_body]
pub(crate) fn fn_stmt_count(g: &syn::ItemFn) -> (r: usize)
    ensures
        r as nat == fn_model(*g).stmt_count,
{
    g.block.stmts.len()
}

/// Relies on the `stmts` field of `syn::Block`: how many statements the
/// function's body holds (each may or may not declare an item).
#[verifier::external_body]
pub(crate) fn fn_body_stmt_count(g: &syn::ItemFn) -> (r: usize)
    ensures
        r as nat == fn_body_model(*g).len(),
{
    g.block.stmts.len()
}

/// Relies on the `syn::Stmt::Item` variant: the item one body statement
/// declares, if it declares one.
#[verifier::external_body]
pub(crate) fn fn_body_stmt_item(g: &syn::ItemFn, i: usize) -> (r: Option<syn::Item>)
    requires
        i < fn_body_model(*g).len(),
    ensures
        (r matches Some(it) ==> fn_body_model(*g)[i as int] == Some(item_model(it))),
        (r is None ==> fn_body_model(*g)[i as int] is None),
{
    match &g.block.stmts[i] {
        syn::Stmt::Item(it) => Some(it.clone()),
        _ => None,
    }
}

/// Relies on the `attrs` field of `syn::ItemFn`: how many attributes the
/// function carries.
#[verifier::external_body]
pub(crate) fn fn_attr_count(g: &syn::ItemFn) -> (r: usize)
    ensures
        r as nat == fn_model(*g).markers.len(),
{
    g.attrs.len()
}

/// Relies on `syn::Attribute::path` and `quote`'s token printing: the text
/// of one attribute's path (a bare word such as `trace` for `#[trace]`).
#[verifier::external_body]
pub(crate) fn fn_attr_path(g: &syn::ItemFn, i: usize) -> (r: String)
    requires
        i < fn_model(*g).markers.len(),
    ensures
        r@ == fn_model(*g).markers[i as int],
{
    g.attrs[i].path().to_token_stream().to_string()
}

/// Relies on `syn::Attribute::parse_outer`: parsing the marker text
/// `#[trace]` yields one attribute whose path reads `trace`, and pushing it
/// appends that marker to the function's attribute list.
#[verifier::external_body]
pub(crate) fn file_mark_fn(f: &mut syn::File, i: usize, attr_src: &str)
    requires
        i < file_model(*old(f)).len(),
        attr_src@ == "#[trace]"@,
    ensures
        file_model(*final(f)).len() == file_model(*old(f)).len(),
        forall|j: int|
            0 <= j < file_model(*old(f)).len() && j != i ==> file_model(*final(f))[j]
                == file_model(*old(f))[j],
        (file_model(*old(f))[i as int] matches ItemModel::Fn(fm, body) ==> file_model(*final(f))[
            i as int] == ItemModel::Fn(spec_marked(fm), body)),
        (!(file_model(*old(f))[i as int] is Fn) ==> file_model(*final(f))[i as int] == file_model(
            *old(f),
        )[i as int]),
{
    match syn::Attribute::parse_outer.parse_str(attr_src) {
        Ok(attrs) => match &mut f.items[i] {
            syn::Item::Fn(g) => g.attrs.extend(attrs),
            _ => {},
        },
        Err(_) => {},
    }
}

/// Relies on `quote`'s token printing for `syn::File`: the whole tree
/// serialised back to source text, a pure function of the tree.
#[verifier::external_body]
pub(crate) fn file_to_source(f: &syn::File) -> (r: String)
    ensures
        r@ == source_of(*f),
{
    f.to_token_stream().to_string()
}

} // verus!

//! The structural description of one function, as the scanner and rewriter
//! see it, together with its mathematical model.

use vstd::prelude::*;
use crate::strutil::{starts_with, string_views};

verus! {

/// What one function looks like to the classifier: its name, visibility,
/// synchronous-or-asynchronous modifier, body size, and the attribute markers
/// already present on it (each as the textual form of the attribute's path).
#[derive(Debug, Clone)]
pub struct FnDescriptor {
    pub name: String,
    pub is_public: bool,
    pub is_async: bool,
    pub stmt_count: usize,
    pub markers: Vec<String>,
}

/// The mathematical view of a [`FnDescriptor`]: the same record over
/// sequences of characters.
#[verifier::ext_equal]
pub struct FnModel {
    pub name: Seq<char>,
    pub is_public: bool,
    pub is_async: bool,
    pub stmt_count: nat,
    pub markers: Seq<Seq<char>>,
}

impl FnDescriptor {
    pub open spec fn model(&self) -> FnModel {
        FnModel {
            name: self.name@,
            is_public: self.is_public,
            is_async: self.is_async,
            stmt_count: self.stmt_count as nat,
            markers: string_views(self.markers@),
        }
    }
}

/// Does the function carry an attribute whose path reads exactly `w`?
pub open spec fn has_marker(m: FnModel, w: Seq<char>) -> bool {
    exists|i: int| 0 <= i < m.markers.len() && m.markers[i] == w
}

/// The function already carries the instrumentation marker.
pub open spec fn spec_instrumented(m: FnModel) -> bool {
    has_marker(m, "trace"@)
}

/// The function carries a test, benchmark or conditional-build marker.
pub open spec fn spec_test_only(m: FnModel) -> bool {
    has_marker(m, "test"@) || has_marker(m, "cfg"@) || has_marker(m, "bench"@)
}

/// The function's name excludes it from instrumentation: exactly `main` or
/// `init`, or a name beginning with `test_`.
pub open spec fn spec_excluded_name(m: FnModel) -> bool {
    m.name == "main"@ || m.name == "init"@ || starts_with(m.name, "test_"@)
}

/// The one classification predicate shared by the scanner and the rewriter:
/// a function is eligible for instrumentation unless it is already marked,
/// carries a test-like marker, has an empty body, or has an excluded name.
pub open spec fn spec_eligible(m: FnModel) -> bool {
    &&& !spec_instrumented(m)
    &&& !spec_test_only(m)
    &&& m.stmt_count > 0
    &&& !spec_excluded_name(m)
}

/// The model of a function after the instrumentation marker is injected.
pub open spec fn spec_marked(m: FnModel) -> FnModel {
    FnModel { markers: m.markers.push("trace"@), ..m }
}

/// Marking a function makes it count as instrumented.
pub proof fn lemma_marked_is_instrumented(m: FnModel)
    ensures
        spec_instrumented(spec_marked(m)),
{
    let i = m.markers.len() as int;
    assert(spec_marked(m).markers[i] == "trace"@);
}

/// An already-instrumented function is never eligible.
pub proof fn lemma_instrumented_not_eligible(m: FnModel)
    requires
        spec_instrumented(m),
    ensures
        !spec_eligible(m),
{
}

/// A function that has just been marked is never eligible again.
pub proof fn lemma_marked_not_eligible(m: FnModel)
    ensures
        !spec_eligible(spec_marked(m)),
{
    lemma_marked_is_instrumented(m);
}

/// The model of one item of a source file: a function (with the items of
/// its body's statements, `Some` where a statement declares an item), an
/// impl block (whose members are functions or other associated items), an
/// inline module holding further items, or anything else.
#[verifier::ext_equal]
pub enum ItemModel {
    Fn(FnModel, Seq<Option<ItemModel>>),
    Impl(Seq<Option<FnModel>>),
    Mod(Seq<ItemModel>),
    Other,
}

/// The functions of one impl block, in declaration order.
pub open spec fn member_fns(members: Seq<Option<FnModel>>) -> Seq<FnModel>
    decreases members.len(),
{
    if members.len() == 0 {
        Seq::empty()
    } else {
        member_fns(members.drop_last()) + (match members.last() {
            Some(f) => seq![f],
            None => Seq::empty(),
        })
    }
}

/// All functions reachable from one item, in declaration order, descending
/// into function bodies, impl blocks and inline modules.
pub open spec fn item_fns(m: ItemModel) -> Seq<FnModel>
    decreases m,
{
    match m {
        ItemModel::Fn(f, body) => seq![f] + stmt_items_fns(body),
        ItemModel::Impl(members) => member_fns(members),
        ItemModel::Mod(inner) => items_fns(inner),
        ItemModel::Other => Seq::empty(),
    }
}

/// All functions reachable from a sequence of items, in declaration order.
pub open spec fn items_fns(items: Seq<ItemModel>) -> Seq<FnModel>
    decreases items,
{
    if items.len() == 0 {
        Seq::empty()
    } else {
        items_fns(items.drop_last()) + item_fns(items.last())
    }
}

/// All functions reachable from a body's statements, in declaration order.
pub open spec fn stmt_items_fns(stmts: Seq<Option<ItemModel>>) -> Seq<FnModel>
    decreases stmts,
{
    if stmts.len() == 0 {
        Seq::empty()
    } else {
        stmt_items_fns(stmts.drop_last()) + (match stmts.last() {
            Some(m) => item_fns(m),
            None => Seq::empty(),
        })
    }
}

/// Appending one item appends its functions.
pub proof fn lemma_items_fns_push(items: Seq<ItemModel>, it: ItemModel)
    ensures
        items_fns(items.push(it)) == items_fns(items) + item_fns(it),
{
    assert(items.push(it).drop_last() =~= items);
    assert(items.push(it).last() == it);
}

/// Appending one member appends its function, if it is one.
pub proof fn lemma_member_fns_push(members: Seq<Option<FnModel>>, m: Option<FnModel>)
    ensures
        member_fns(members.push(m)) == member_fns(members) + (match m {
            Some(f) => seq![f],
            None => Seq::<FnModel>::empty(),
        }),
{
    assert(members.push(m).drop_last() =~= members);
    assert(members.push(m).last() == m);
}

/// Extending a prefix of items by one extends its functions.
pub proof fn lemma_items_fns_take_succ(items: Seq<ItemModel>, k: int)
    requires
        0 <= k < items.len(),
    ensures
        items_fns(items.take(k + 1)) == items_fns(items.take(k)) + item_fns(items[k]),
{
    assert(items.take(k + 1) =~= items.take(k).push(items[k]));
    lemma_items_fns_push(items.take(k), items[k]);
}

/// Appending one statement appends its item's functions, if it holds one.
pub proof fn lemma_stmt_items_fns_push(stmts: Seq<Option<ItemModel>>, m: Option<ItemModel>)
    ensures
        stmt_items_fns(stmts.push(m)) == stmt_items_fns(stmts) + (match m {
            Some(it) => item_fns(it),
            None => Seq::<FnModel>::empty(),
        }),
{
    assert(stmts.push(m).drop_last() =~= stmts);
    assert(stmts.push(m).last() == m);
}

/// Extending a prefix of statements by one extends its functions.
pub proof fn lemma_stmt_items_fns_take_succ(stmts: Seq<Option<ItemModel>>, k: int)
    requires
        0 <= k < stmts.len(),
    ensures
        stmt_items_fns(stmts.take(k + 1)) == stmt_items_fns(stmts.take(k)) + (match stmts[k] {
            Some(it) => item_fns(it),
            None => Seq::<FnModel>::empty(),
        }),
{
    assert(stmts.take(k + 1) =~= stmts.take(k).push(stmts[k]));
    lemma_stmt_items_fns_push(stmts.take(k), stmts[k]);
}

/// Extending a prefix of members by one extends its functions.
pub proof fn lemma_member_fns_take_succ(members: Seq<Option<FnModel>>, k: int)
    requires
        0 <= k < members.len(),
    ensures
        member_fns(members.take(k + 1)) == member_fns(members.take(k)) + (match members[k] {
            Some(f) => seq![f],
            None => Seq::<FnModel>::empty(),
        }),
{
    assert(members.take(k + 1) =~= members.take(k).push(members[k]));
    lemma_member_fns_push(members.take(k), members[k]);
}

} // verus!

//! Lowering of the typed intermediate representation to the IR: the
//! lowering stages, and the set of functions found to lower.

use std::collections::hash_map::RandomState;

use indexmap::IndexSet;
use vstd::prelude::*;

use crate::tir::store::{ArgsId, DataDefId, FnDefId};

verus! {

/// The ordered set of the `indexmap` crate.
#[verifier::external_type_specification]
#[verifier::external_body]
#[verifier::reject_recursive_types(T)]
#[verifier::reject_recursive_types(S)]
pub struct ExIndexSet<T, S>(IndexSet<T, S>);

/// The items of a set of function definitions, by their indices, in the
/// order they were first inserted.
pub uninterp spec fn fn_set_items(s: IndexSet<usize, RandomState>) -> Seq<usize>;

/// `IndexSet::new`: an empty set.
#[verifier::external_body]
fn fn_set_new() -> (r: IndexSet<usize, RandomState>)
    ensures
        fn_set_items(r) == Seq::<usize>::empty(),
{
    IndexSet::new()
}

/// `IndexSet::insert`: an item that is already there stays where it is and
/// `false` is returned; otherwise the item goes last and `true` is
/// returned.
#[verifier::external_body]
fn fn_set_insert(s: &mut IndexSet<usize, RandomState>, x: usize) -> (r: bool)
    ensures
        r == !fn_set_items(*old(s)).contains(x),
        fn_set_items(*final(s)) == if r {
            fn_set_items(*old(s)).push(x)
        } else {
            fn_set_items(*old(s))
        },
{
    s.insert(x)
}

/// `IndexSet::contains`: whether the item is in the set.
#[verifier::external_body]
fn fn_set_contains(s: &IndexSet<usize, RandomState>, x: usize) -> (r: bool)
    ensures
        r == fn_set_items(*s).contains(x),
{
    s.contains(&x)
}

/// `IndexSet::into_iter`: the items, in order.
#[verifier::external_body]
fn fn_set_into_vec(s: IndexSet<usize, RandomState>) -> (r: Vec<usize>)
    ensures
        r@ == fn_set_items(s),
{
    s.into_iter().collect()
}

/// The functions found after adding `f` to those found: `f` goes last,
/// unless it was found already.
pub open spec fn add_found(found: Seq<usize>, f: usize) -> Seq<usize> {
    if found.contains(f) {
        found
    } else {
        found.push(f)
    }
}

/// The functions found after adding each of `adds` in turn, from none.
pub open spec fn found_after(adds: Seq<usize>) -> Seq<usize>
    decreases adds.len(),
{
    if adds.len() == 0 {
        Seq::empty()
    } else {
        add_found(found_after(adds.drop_last()), adds.last())
    }
}

/// The functions found are the added ones, each once.
proof fn lemma_found_elements(adds: Seq<usize>)
    ensures
        found_after(adds).no_duplicates(),
        forall|f: usize| #[trigger] found_after(adds).contains(f) <==> adds.contains(f),
    decreases adds.len(),
{
    if adds.len() > 0 {
        let pre = adds.drop_last();
        let x = adds.last();
        lemma_found_elements(pre);
        let p = found_after(pre);
        let q = found_after(adds);
        assert(q == add_found(p, x));
        assert forall|f: usize| #[trigger] found_after(adds).contains(f) <==> adds.contains(f) by {
            if q.contains(f) {
                let k = choose|k: int| 0 <= k < q.len() && q[k] == f;
                if k < p.len() {
                    assert(p[k] == f);
                    assert(p.contains(f));
                    let m = choose|m: int| 0 <= m < pre.len() && pre[m] == f;
                    assert(adds[m] == f);
                } else {
                    assert(f == x);
                    assert(adds[adds.len() - 1] == f);
                }
            }
            if adds.contains(f) {
                let k = choose|k: int| 0 <= k < adds.len() && adds[k] == f;
                if k < pre.len() {
                    assert(pre[k] == f);
                    assert(pre.contains(f));
                    assert(p.contains(f));
                    let m = choose|m: int| 0 <= m < p.len() && p[m] == f;
                    assert(q[m] == f);
                } else if p.contains(x) {
                    assert(q == p);
                } else {
                    assert(q[p.len() as int] == x);
                }
            }
        }
    }
}

/// What is found after the first `k` additions stays, in its order, at
/// the front of what is found after all of them.
proof fn lemma_found_prefix(adds: Seq<usize>, k: int)
    requires
        0 <= k <= adds.len(),
    ensures
        found_after(adds.take(k)).len() <= found_after(adds).len(),
        found_after(adds.take(k)) == found_after(adds).take(found_after(adds.take(k)).len() as int),
    decreases adds.len(),
{
    if k == adds.len() {
        assert(adds.take(k) =~= adds);
        assert(found_after(adds).take(found_after(adds).len() as int) =~= found_after(adds));
    } else {
        let pre = adds.drop_last();
        assert(adds.take(k) =~= pre.take(k));
        lemma_found_prefix(pre, k);
        let p = found_after(pre);
        let n = found_after(pre.take(k)).len() as int;
        if !p.contains(adds.last()) {
            assert(p.push(adds.last()).take(n) =~= p.take(n));
        }
    }
}

/// After adding functions in turn to an empty set, each added function is
/// there exactly once and nothing else is, and each comes in the order of
/// its first addition: what was found after the first `k` additions stays,
/// in its order, at the front.
pub proof fn lemma_found_in_first_order(adds: Seq<usize>, k: int)
    requires
        0 <= k <= adds.len(),
    ensures
        found_after(adds).no_duplicates(),
        forall|f: usize| #[trigger] found_after(adds).contains(f) <==> adds.contains(f),
        found_after(adds.take(k)) == found_after(adds).take(found_after(adds.take(k)).len() as int),
{
    lemma_found_elements(adds);
    lemma_found_prefix(adds, k);
}

/// The functions found to lower, each once, in the order they were found.
pub struct DiscoveredFns {
    pub fns: IndexSet<usize, RandomState>,
}

impl DiscoveredFns {
    /// The functions found, by their indices, in order.
    pub open spec fn view(&self) -> Seq<usize> {
        fn_set_items(self.fns)
    }

    /// No functions.
    pub fn new() -> (r: Self)
        ensures
            r.view() == Seq::<usize>::empty(),
    {
        DiscoveredFns { fns: fn_set_new() }
    }

    /// Add a function: it goes last, unless it was found already.
    pub fn add_fn(&mut self, def: FnDefId)
        ensures
            final(self).view() == add_found(old(self).view(), def.0),
    {
        fn_set_insert(&mut self.fns, def.0);
    }

    /// Whether the function was found.
    pub fn contains(&self, def: FnDefId) -> (r: bool)
        ensures
            r == self.view().contains(def.0),
    {
        fn_set_contains(&self.fns, def.0)
    }

    /// The functions found, in order.
    pub fn into_iter(self) -> (r: Vec<FnDefId>)
        ensures
            r@ == self.view().map_values(|i: usize| FnDefId(i)),
    {
        let ids = fn_set_into_vec(self.fns);
        let mut out: Vec<FnDefId> = Vec::new();
        let mut i: usize = 0;
        while i < ids.len()
            invariant
                i <= ids@.len(),
                out@ == ids@.map_values(|x: usize| FnDefId(x)).take(i as int),
            decreases ids@.len() - i,
        {
            out.push(FnDefId(ids[i]));
            assert(ids@.map_values(|x: usize| FnDefId(x)).take(i + 1) =~= out@);
            i = i + 1;
        }
        assert(ids@.map_values(|x: usize| FnDefId(x)).take(i as int) =~= ids@.map_values(|x: usize| FnDefId(x)));
        out
    }
}

/// A data type: a data definition applied to arguments.
#[derive(Debug, Clone, Copy, PartialEq, Eq, Structural)]
pub struct DataTy {
    pub data_def: DataDefId,
    pub args: ArgsId,
}

/// The stage that builds the IR: it keeps the data types whose layouts
/// were asked for by a directive.
pub struct IrGen {
    pub layouts_to_generate: Vec<DataTy>,
}

impl IrGen {
    /// No layouts to generate yet.
    pub fn new() -> (r: Self)
        ensures
            r.layouts_to_generate@.len() == 0,
    {
        IrGen { layouts_to_generate: Vec::new() }
    }
}

/// The stage that optimises the IR.
pub struct IrOptimiser;

} // verus!

//! Operations to substitute variables in types and terms.

use std::ops::ControlFlow;

use vstd::prelude::*;

use crate::ir::Identifier;
use crate::tir::params::{args_at, lemma_param_parts, params_at, symbol_ident, ParamId};
use crate::tir::store::{
    children, data_of, extends, has_kind, kind_of, lemma_tree_unfold, node_ok, tag_of, trees, wf, ArgsId,
    Atom, NodeData, NodeKind, Param, ParamIndex, ParamsId, PatId, SymbolData, SymbolId, Term,
    TermId, Tir, Tree, TyId,
};
use crate::tir::context::ModDefId;
use crate::tir::defs::{visit_seq, Defs};
use crate::tir::fallible::TryAtomMapper;
use crate::tir::sub::Sub;
use crate::tir::visitor::{
    atom_at, atom_index, atom_ok, break_ok, fmap_kids, fmap_spec, is_atom_kind, visit_kids,
    visit_spec, lemma_visit_stable, AtomMapper, AtomVisitor, Visitor,
};
use crate::tir::store::tree;

verus! {

/// Which variables a search looks for: those with an entry in a
/// substitution, or those among a list of names.
pub enum VarFilter<'a> {
    InSub(&'a Sub),
    InNames(&'a Vec<SymbolId>),
}

impl<'a> VarFilter<'a> {
    /// Whether the search looks for `s`.
    pub open spec fn spec_matches(&self, s: SymbolId) -> bool {
        match self {
            VarFilter::InSub(sub) => sub.has(s),
            VarFilter::InNames(names) => names@.contains(s),
        }
    }

    /// Whether the search looks for `s`.
    pub fn matches(&self, s: SymbolId) -> (r: bool)
        ensures
            r == self.spec_matches(s),
    {
        match self {
            VarFilter::InSub(sub) => sub.get_sub_for(s).is_some(),
            VarFilter::InNames(names) => {
                assert(*self == VarFilter::InNames(*names));
                let mut i: usize = 0;
                while i < names.len()
                    invariant
                        *self == VarFilter::InNames(*names),
                        i <= names@.len(),
                        forall|j: int| 0 <= j < i ==> names@[j] != s,
                    decreases names@.len() - i,
                {
                    if names[i] == s {
                        assert(names@[i as int] == s);
                        assert(names@.contains(s));
                        return true;
                    }
                    i = i + 1;
                }
                false
            },
        }
    }
}

/// The variable or hole that node `i` is, if it is one.
pub open spec fn var_or_hole_at(t: Seq<NodeData>, i: usize) -> Option<SymbolId> {
    if i < t.len() {
        match t[i as int] {
            NodeData::Term(Term::Var(s)) => Some(s),
            NodeData::Term(Term::Hole(s)) => Some(s),
            _ => None,
        }
    } else {
        None
    }
}

/// Whether node `i` is a hole.
pub open spec fn is_hole_at(t: Seq<NodeData>, i: usize) -> bool {
    i < t.len() && t[i as int] is Term && t[i as int]->Term_0 is Hole
}

/// A search for variables: stops as soon as one is found.
pub struct ContainsVars<'a> {
    pub filter: VarFilter<'a>,
    pub can_apply: bool,
}

/// The outcome of the search on one atom.
pub open spec fn contains_vars_step(t: Seq<NodeData>, atom: Atom, filter: VarFilter, can_apply: bool) -> (bool, ControlFlow<()>) {
    if can_apply {
        (true, ControlFlow::Break(()))
    } else {
        match atom {
            Atom::Term(x) => match var_or_hole_at(t, x.0) {
                Some(s) => if filter.spec_matches(s) {
                    (true, ControlFlow::Break(()))
                } else {
                    (false, ControlFlow::Continue(()))
                },
                None => (false, ControlFlow::Continue(())),
            },
            _ => (false, ControlFlow::Continue(())),
        }
    }
}

impl<'a> AtomVisitor for ContainsVars<'a> {
    open spec fn spec_step(self, t: Seq<NodeData>, atom: Atom) -> (Self, ControlFlow<()>) {
        let r = contains_vars_step(t, atom, self.filter, self.can_apply);
        (ContainsVars { filter: self.filter, can_apply: r.0 }, r.1)
    }

    proof fn lemma_step_stable(self, t1: Seq<NodeData>, t2: Seq<NodeData>, atom: Atom) {
        assert(t2[atom_index(atom) as int] == t1[atom_index(atom) as int]);
    }

    fn step(&mut self, tir: &Tir, atom: Atom) -> (r: ControlFlow<()>) {
        let ops = SubstitutionOps::new();
        ops.atom_contains_vars_once(tir, atom, &self.filter, &mut self.can_apply)
    }
}

/// A search for holes: records the last hole met, and does not look inside
/// holes.
pub struct HoleFinder {
    pub has_holes: Option<Atom>,
}

impl AtomVisitor for HoleFinder {
    open spec fn spec_step(self, t: Seq<NodeData>, atom: Atom) -> (Self, ControlFlow<()>) {
        match atom {
            Atom::Term(x) => if is_hole_at(t, x.0) {
                (HoleFinder { has_holes: Some(atom) }, ControlFlow::Break(()))
            } else {
                (self, ControlFlow::Continue(()))
            },
            _ => (self, ControlFlow::Continue(())),
        }
    }

    proof fn lemma_step_stable(self, t1: Seq<NodeData>, t2: Seq<NodeData>, atom: Atom) {
        assert(t2[atom_index(atom) as int] == t1[atom_index(atom) as int]);
    }

    fn step(&mut self, tir: &Tir, atom: Atom) -> (r: ControlFlow<()>) {
        let ops = SubstitutionOps::new();
        ops.has_holes_once(tir, atom, &mut self.has_holes)
    }
}

/// Whether a hole occurs in the tree of node `i`: node `i` is a hole, or one
/// occurs in the tree of one of its children (through the definitions of
/// functions too).
pub open spec fn hole_below(t: Seq<NodeData>, i: usize) -> bool
    decreases i, 1int,
{
    i < t.len() && (is_hole_at(t, i) || hole_among(t, children(t[i as int]), i))
}

/// Whether a hole occurs in the tree of one of the nodes `ks`, the children
/// of a node at `bound`.
pub open spec fn hole_among(t: Seq<NodeData>, ks: Seq<usize>, bound: usize) -> bool
    decreases bound, 0int, ks.len(),
{
    ks.len() > 0 && (hole_among(t, ks.drop_last(), bound) || (ks.last() < bound && hole_below(t, ks.last())))
}

/// No function definition met so far, below `b`, holds a hole, unless a
/// hole was found already.
pub open spec fn none_missed(t: Seq<NodeData>, v: HoleFinder, vis: Set<usize>, b: int) -> bool {
    v.has_holes is Some || forall|j: usize| #[trigger] vis.contains(j) && j < b ==> !hole_below(t, j)
}

/// The search for holes in node `i`: a hole once found stays found; what it
/// finds is a hole; it finds one where the tree has one and no definition
/// met before hides it; and it only meets definitions up to `i`.
proof fn lemma_hole_search_node(t: Seq<NodeData>, v: HoleFinder, i: usize, vis: Set<usize>)
    requires
        wf(t),
    ensures
        ({
            let r = visit_spec(v, t, i, true, vis);
            &&& v.has_holes is Some ==> r.0.has_holes is Some
            &&& r.0.has_holes matches Some(a) ==> (v.has_holes == Some(a) || (a is Term && is_hole_at(t, atom_index(a))))
            &&& v.has_holes is None && r.0.has_holes is Some ==> hole_below(t, i)
            &&& none_missed(t, v, vis, i + 1) && hole_below(t, i) ==> r.0.has_holes is Some
            &&& forall|j: usize| #[trigger] r.1.contains(j) && !vis.contains(j) ==> j <= i
            &&& forall|b: int| b > i && none_missed(t, v, vis, b) ==> #[trigger] none_missed(t, r.0, r.1, b)
        }),
    decreases i, 1int, 0int,
{
    if i < t.len() {
        let n = t[i as int];
        let k = kind_of(n);
        assert(node_ok(t, i as int, n));
        if k == NodeKind::FnDef && vis.contains(i) {
        } else if is_atom_kind(k) {
            let vis1 = if k == NodeKind::FnDef { vis.insert(i) } else { vis };
            let s = v.spec_step(t, atom_at(k, i));
            if s.1 is Continue {
                assert(!is_hole_at(t, i));
                assert(s.0 == v);
                lemma_hole_search_kids(t, v, children(n), i, vis1);
                assert(none_missed(t, v, vis, i + 1) ==> none_missed(t, v, vis1, i as int));
                let r = visit_kids(v, t, children(n), i, true, vis1);
                assert forall|b: int| b > i && none_missed(t, v, vis, b) implies #[trigger] none_missed(t, r.0, r.1, b) by {
                    if r.0.has_holes is None {
                        assert(none_missed(t, v, vis, i + 1));
                        assert(none_missed(t, v, vis1, i as int));
                        assert(none_missed(t, r.0, r.1, i as int));
                        assert forall|j: usize| #[trigger] r.1.contains(j) && j < b implies !hole_below(t, j) by {
                            if !vis1.contains(j) {
                                assert(j < i);
                            } else if j != i {
                                assert(vis.contains(j));
                            } else {
                                assert(!hole_among(t, children(n), i));
                            }
                        }
                    }
                }
            }
        } else {
            lemma_hole_search_kids(t, v, children(n), i, vis);
            let r = visit_kids(v, t, children(n), i, true, vis);
            assert forall|b: int| b > i && none_missed(t, v, vis, b) implies #[trigger] none_missed(t, r.0, r.1, b) by {
                assert(b >= i);
            }
        }
    }
}

/// The search for holes in the children `ks` of a node at `bound`, as for
/// a single node.
proof fn lemma_hole_search_kids(t: Seq<NodeData>, v: HoleFinder, ks: Seq<usize>, bound: usize, vis: Set<usize>)
    requires
        wf(t),
    ensures
        ({
            let r = visit_kids(v, t, ks, bound, true, vis);
            &&& v.has_holes is Some ==> r.0.has_holes is Some
            &&& r.0.has_holes matches Some(a) ==> (v.has_holes == Some(a) || (a is Term && is_hole_at(t, atom_index(a))))
            &&& v.has_holes is None && r.0.has_holes is Some ==> hole_among(t, ks, bound)
            &&& none_missed(t, v, vis, bound as int) && hole_among(t, ks, bound) ==> r.0.has_holes is Some
            &&& forall|j: usize| #[trigger] r.1.contains(j) && !vis.contains(j) ==> j < bound
            &&& forall|b: int| b >= bound && none_missed(t, v, vis, b) ==> #[trigger] none_missed(t, r.0, r.1, b)
        }),
    decreases bound, 0int, ks.len(),
{
    if ks.len() > 0 {
        let pre_ks = ks.drop_last();
        lemma_hole_search_kids(t, v, pre_ks, bound, vis);
        let pre = visit_kids(v, t, pre_ks, bound, true, vis);
        let c = ks.last();
        if c < bound {
            lemma_hole_search_node(t, pre.0, c, pre.1);
            let r = visit_spec(pre.0, t, c, true, pre.1);
            assert(none_missed(t, v, vis, bound as int) ==> none_missed(t, pre.0, pre.1, bound as int));
            assert(none_missed(t, pre.0, pre.1, bound as int) ==> none_missed(t, pre.0, pre.1, c + 1)) by {
                if pre.0.has_holes is None && none_missed(t, pre.0, pre.1, bound as int) {
                    assert forall|j: usize| #[trigger] pre.1.contains(j) && j < c + 1 implies !hole_below(t, j) by {}
                }
            }
        }
    }
}

/// The search for holes through the nodes `ids` in order, as for a single
/// node.
proof fn lemma_hole_search_seq(t: Seq<NodeData>, v: HoleFinder, ids: Seq<usize>, vis: Set<usize>)
    requires
        wf(t),
        forall|k: int| 0 <= k < ids.len() ==> #[trigger] ids[k] < t.len(),
    ensures
        ({
            let r = visit_seq(v, t, ids, true, vis);
            &&& v.has_holes is Some ==> r.0.has_holes is Some
            &&& r.0.has_holes matches Some(a) ==> (v.has_holes == Some(a) || (a is Term && is_hole_at(t, atom_index(a))))
            &&& v.has_holes is None && r.0.has_holes is Some ==> exists|k: int| 0 <= k < ids.len() && #[trigger] hole_below(t, ids[k])
            &&& none_missed(t, v, vis, t.len() as int) && (exists|k: int| 0 <= k < ids.len() && #[trigger] hole_below(t, ids[k]))
                ==> r.0.has_holes is Some
            &&& none_missed(t, v, vis, t.len() as int) ==> none_missed(t, r.0, r.1, t.len() as int)
        }),
    decreases ids.len(),
{
    if ids.len() > 0 {
        let pre_ids = ids.drop_last();
        lemma_hole_search_seq(t, v, pre_ids, vis);
        let pre = visit_seq(v, t, pre_ids, true, vis);
        let i = ids.last();
        lemma_hole_search_node(t, pre.0, i, pre.1);
        let r = visit_spec(pre.0, t, i, true, pre.1);
        assert(none_missed(t, pre.0, pre.1, t.len() as int) ==> none_missed(t, r.0, r.1, t.len() as int));
        if v.has_holes is None && r.0.has_holes is Some {
            if pre.0.has_holes is Some {
                let k = choose|k: int| 0 <= k < pre_ids.len() && #[trigger] hole_below(t, pre_ids[k]);
                assert(ids[k] == pre_ids[k]);
            } else {
                assert(hole_below(t, ids[ids.len() - 1]));
            }
        }
        if none_missed(t, v, vis, t.len() as int) && (exists|k: int| 0 <= k < ids.len() && #[trigger] hole_below(t, ids[k])) {
            let k = choose|k: int| 0 <= k < ids.len() && #[trigger] hole_below(t, ids[k]);
            if k < ids.len() - 1 {
                assert(pre_ids[k] == ids[k]);
            } else {
                assert(none_missed(t, pre.0, pre.1, i + 1));
            }
        }
    }
}

/// The search for holes in a tree finds one exactly when a hole occurs in
/// it, including in the definitions of the functions it reaches, and what
/// it finds is a hole.
pub proof fn lemma_hole_search_finds_holes(t: Seq<NodeData>, i: usize)
    requires
        wf(t),
    ensures
        visit_spec(HoleFinder { has_holes: None }, t, i, true, Set::empty()).0.has_holes is Some <==> hole_below(t, i),
        visit_spec(HoleFinder { has_holes: None }, t, i, true, Set::empty()).0.has_holes matches Some(a) ==> a is Term
            && is_hole_at(t, atom_index(a)),
{
    lemma_hole_search_node(t, HoleFinder { has_holes: None }, i, Set::empty());
}

/// Every term that the substitution substitutes is a term of the store.
pub open spec fn sub_valid_in(t: Seq<NodeData>, sub: Sub) -> bool {
    forall|i: int| 0 <= i < sub.data@.len() ==> has_kind(t, (#[trigger] sub.data@[i]).1.0, NodeKind::Term)
}

/// Whether the atom contains a variable or hole that the filter looks for.
pub open spec fn spec_contains_vars(t: Seq<NodeData>, atom: Atom, filter: VarFilter) -> bool {
    visit_spec(ContainsVars { filter, can_apply: false }, t, atom_index(atom), true, Set::empty()).0.can_apply
}

/// Whether the substitution applies to the atom: it contains a variable or
/// hole that the substitution has an entry for.
pub open spec fn spec_can_apply(t: Seq<NodeData>, atom: Atom, sub: Sub) -> bool {
    spec_contains_vars(t, atom, VarFilter::InSub(&sub))
}

/// The outcome of one step of substitution: an atom that the substitution
/// does not apply to is kept; a variable or hole with an entry is replaced
/// by its term; other atoms are copied with their children substituted.
pub open spec fn spec_apply_sub_once(t: Seq<NodeData>, atom: Atom, sub: Sub) -> ControlFlow<Atom> {
    if !spec_can_apply(t, atom, sub) {
        ControlFlow::Break(atom)
    } else {
        match atom {
            Atom::Term(x) => match var_or_hole_at(t, x.0) {
                Some(s) => match sub.spec_get(s) {
                    Some(v) => ControlFlow::Break(Atom::Term(v)),
                    None => ControlFlow::Continue(()),
                },
                None => ControlFlow::Continue(()),
            },
            _ => ControlFlow::Continue(()),
        }
    }
}

/// The callback of a substitution.
pub struct SubMapper<'a> {
    pub sub: &'a Sub,
}

impl<'a> AtomMapper for SubMapper<'a> {
    open spec fn valid_in(&self, t: Seq<NodeData>) -> bool {
        sub_valid_in(t, *self.sub)
    }

    open spec fn spec_map(&self, t: Seq<NodeData>, atom: Atom) -> ControlFlow<Atom> {
        spec_apply_sub_once(t, atom, *self.sub)
    }

    fn map(&self, tir: &Tir, atom: Atom) -> (r: ControlFlow<Atom>) {
        let ops = SubstitutionOps::new();
        ops.apply_sub_to_atom_once(tir, atom, self.sub)
    }

    proof fn lemma_valid_stable(&self, t1: Seq<NodeData>, t2: Seq<NodeData>) {
        assert forall|i: int| 0 <= i < self.sub.data@.len() implies has_kind(t2, (#[trigger] self.sub.data@[i]).1.0, NodeKind::Term) by {
            assert(has_kind(t1, self.sub.data@[i].1.0, NodeKind::Term));
        }
    }

    proof fn lemma_map_stable(&self, t1: Seq<NodeData>, t2: Seq<NodeData>, atom: Atom) {
        lemma_visit_stable(
            ContainsVars { filter: VarFilter::InSub(self.sub), can_apply: false },
            t1,
            t2,
            atom_index(atom),
            true,
            Set::empty(),
        );
        assert(t2[atom_index(atom) as int] == t1[atom_index(atom) as int]);
    }

    proof fn lemma_break_ok(&self, t: Seq<NodeData>, atom: Atom) {
        let sub = *self.sub;
        if spec_can_apply(t, atom, sub) {
            if let Atom::Term(x) = atom {
                if let Some(s) = var_or_hole_at(t, x.0) {
                    if let Some(v) = sub.spec_get(s) {
                        crate::tir::sub::lemma_entry_index(sub.data@, s);
                        let i = crate::tir::sub::entry_index(sub.data@, s).unwrap();
                        assert(has_kind(t, sub.data@[i].1.0, NodeKind::Term));
                    }
                }
            }
        }
    }
}

/// The hole that a term atom is and that the substitution has no entry
/// for, if it is one.
pub open spec fn unfilled_hole(t: Seq<NodeData>, atom: Atom, sub: Sub) -> Option<SymbolId> {
    match atom {
        Atom::Term(x) => if is_hole_at(t, x.0) && sub.spec_get(t[x.0 as int]->Term_0->Hole_0) is None {
            Some(t[x.0 as int]->Term_0->Hole_0)
        } else {
            None
        },
        _ => None,
    }
}

/// The callback of a substitution that must fill every hole it meets: a
/// hole that the substitution has no entry for is an error, which ends the
/// map; everything else is substituted as by [SubMapper].
pub struct FillingSubMapper<'a> {
    pub sub: &'a Sub,
}

impl<'a> TryAtomMapper for FillingSubMapper<'a> {
    type Error = SymbolId;

    open spec fn valid_in(&self, t: Seq<NodeData>) -> bool {
        sub_valid_in(t, *self.sub)
    }

    open spec fn spec_try_map(&self, t: Seq<NodeData>, atom: Atom) -> Result<ControlFlow<Atom>, SymbolId> {
        match unfilled_hole(t, atom, *self.sub) {
            Some(h) => Err(h),
            None => Ok(spec_apply_sub_once(t, atom, *self.sub)),
        }
    }

    fn try_map(&self, tir: &Tir, atom: Atom) -> (r: Result<ControlFlow<Atom>, SymbolId>) {
        if let Atom::Term(x) = atom {
            if let Term::Hole(h) = tir.get_term(x) {
                if self.sub.get_sub_for(h).is_none() {
                    return Err(h);
                }
            }
        }
        let ops = SubstitutionOps::new();
        Ok(ops.apply_sub_to_atom_once(tir, atom, self.sub))
    }

    proof fn lemma_valid_stable(&self, t1: Seq<NodeData>, t2: Seq<NodeData>) {
        SubMapper { sub: self.sub }.lemma_valid_stable(t1, t2);
    }

    proof fn lemma_try_map_stable(&self, t1: Seq<NodeData>, t2: Seq<NodeData>, atom: Atom) {
        SubMapper { sub: self.sub }.lemma_map_stable(t1, t2, atom);
        assert(t2[atom_index(atom) as int] == t1[atom_index(atom) as int]);
    }

    proof fn lemma_try_break_ok(&self, t: Seq<NodeData>, atom: Atom) {
        SubMapper { sub: self.sub }.lemma_break_ok(t, atom);
    }
}

/// The callback of a copy: every atom is copied.
pub struct CopyMapper;

impl AtomMapper for CopyMapper {
    open spec fn valid_in(&self, t: Seq<NodeData>) -> bool {
        true
    }

    open spec fn spec_map(&self, t: Seq<NodeData>, atom: Atom) -> ControlFlow<Atom> {
        ControlFlow::Continue(())
    }

    fn map(&self, tir: &Tir, atom: Atom) -> (r: ControlFlow<Atom>) {
        ControlFlow::Continue(())
    }

    proof fn lemma_valid_stable(&self, t1: Seq<NodeData>, t2: Seq<NodeData>) {
    }

    proof fn lemma_map_stable(&self, t1: Seq<NodeData>, t2: Seq<NodeData>, atom: Atom) {
    }

    proof fn lemma_break_ok(&self, t: Seq<NodeData>, atom: Atom) {
    }
}

/// The tree of the variable `name`.
pub open spec fn var_tree(name: SymbolId) -> Tree {
    Tree::Node(tag_of(NodeData::Term(Term::Var(name))), data_of(NodeData::Term(Term::Var(name))), Seq::empty())
}

/// The renaming from the names of `src` to those of `tgt`, pair by pair,
/// over the first `k` pairs: a name that is the same on both sides is not
/// renamed.
pub open spec fn renaming(src: Seq<Param>, tgt: Seq<Param>, k: int) -> Map<SymbolId, SymbolId>
    decreases k,
{
    if k <= 0 {
        Map::empty()
    } else {
        let m = renaming(src, tgt, k - 1);
        if src[k - 1].name != tgt[k - 1].name {
            m.insert(src[k - 1].name, tgt[k - 1].name)
        } else {
            m
        }
    }
}

/// The fields that the first `k` parameters are accessed by: the named
/// parameters, by their names.
pub open spec fn access_fields(syms: Seq<SymbolData>, ps: Seq<Param>, k: int) -> Map<SymbolId, Identifier>
    decreases k,
{
    if k <= 0 {
        Map::empty()
    } else {
        let m = access_fields(syms, ps, k - 1);
        match symbol_ident(syms, ps[k - 1].name) {
            Some(n) => m.insert(ps[k - 1].name, n),
            None => m,
        }
    }
}

/// The reversal of the first `k` entries of a substitution whose terms are
/// variables or holes: each of those symbols maps to the name of its entry.
pub open spec fn reversal(t: Seq<NodeData>, d: Seq<(SymbolId, TermId)>, k: int) -> Map<SymbolId, SymbolId>
    decreases k,
{
    if k <= 0 {
        Map::empty()
    } else {
        reversal(t, d, k - 1).insert(var_or_hole_at(t, d[k - 1].1.0).unwrap(), d[k - 1].0)
    }
}

/// Every entry of the substitution maps a symbol of `m` to a variable named
/// by `m`, and there are no other entries.
pub open spec fn sub_is_vars(t: Seq<NodeData>, sub: Sub, m: Map<SymbolId, SymbolId>) -> bool {
    &&& sub.as_map().dom() == m.dom()
    &&& forall|s: SymbolId| #[trigger] m.dom().contains(s) ==> {
        &&& sub.as_map()[s].0 < t.len()
        &&& t[sub.as_map()[s].0 as int] == NodeData::Term(Term::Var(m[s]))
    }
}

/// Every entry of the substitution maps a symbol of `m` to an access of
/// `subject` by the field that `m` names, and there are no other entries.
pub open spec fn sub_is_accesses(t: Seq<NodeData>, sub: Sub, m: Map<SymbolId, Identifier>, subject: TermId) -> bool {
    &&& sub.as_map().dom() == m.dom()
    &&& forall|s: SymbolId| #[trigger] m.dom().contains(s) ==> {
        &&& sub.as_map()[s].0 < t.len()
        &&& t[sub.as_map()[s].0 as int] == NodeData::Term(Term::Access { subject, field: ParamIndex::Name(m[s]) })
    }
}

/// The entry is kept when its name is not among `names` and its term does
/// not mention them.
pub open spec fn keeps_entry(t: Seq<NodeData>, names: &Vec<SymbolId>, e: (SymbolId, TermId)) -> bool {
    !names@.contains(e.0) && !spec_contains_vars(t, Atom::Term(e.1), VarFilter::InNames(names))
}

/// The names of the given parameters.
pub open spec fn names_of_params(t: Seq<NodeData>, ids: Seq<ParamId>) -> Seq<SymbolId> {
    ids.map_values(|p: ParamId| params_at(t, p.0)[p.1 as int].name)
}

/// Each parameter identifier refers to a parameter of the store.
pub open spec fn param_ids_ok(t: Seq<NodeData>, ids: Seq<ParamId>) -> bool {
    forall|i: int| 0 <= i < ids.len() ==> {
        &&& has_kind(t, (#[trigger] ids[i]).0.0, NodeKind::Params)
        &&& ids[i].1 < params_at(t, ids[i].0).len()
    }
}

/// Each entry of the substitution maps to a variable or a hole.
pub open spec fn sub_of_vars_or_holes(t: Seq<NodeData>, sub: Sub) -> bool {
    forall|i: int| 0 <= i < sub.data@.len() ==> (#[trigger] var_or_hole_at(t, sub.data@[i].1.0)) is Some
}

/// Extending the store keeps a substitution valid in it.
pub proof fn lemma_sub_valid_stable(t1: Seq<NodeData>, t2: Seq<NodeData>, sub: Sub)
    requires
        sub_valid_in(t1, sub),
        extends(t2, t1),
    ensures
        sub_valid_in(t2, sub),
{
    assert forall|i: int| 0 <= i < sub.data@.len() implies has_kind(t2, (#[trigger] sub.data@[i]).1.0, NodeKind::Term) by {
        assert(has_kind(t1, sub.data@[i].1.0, NodeKind::Term));
    }
}

/// A substitution is valid in the store exactly when each of its symbols
/// maps to a term of the store.
pub proof fn lemma_sub_valid_iff_map(t: Seq<NodeData>, sub: Sub)
    requires
        sub.wf(),
    ensures
        sub_valid_in(t, sub) <==> forall|s: SymbolId|
            #[trigger] sub.as_map().dom().contains(s) ==> has_kind(t, sub.as_map()[s].0, NodeKind::Term),
{
    sub.lemma_unique_get();
    if sub_valid_in(t, sub) {
        assert forall|s: SymbolId| #[trigger] sub.as_map().dom().contains(s) implies has_kind(t, sub.as_map()[s].0, NodeKind::Term) by {
            let i = choose|i: int| 0 <= i < sub.data@.len() && sub.data@[i].0 == s;
            assert(sub.spec_get(sub.data@[i].0) == Some(sub.data@[i].1));
            assert(has_kind(t, sub.data@[i].1.0, NodeKind::Term));
        }
    }
    if forall|s: SymbolId| #[trigger] sub.as_map().dom().contains(s) ==> has_kind(t, sub.as_map()[s].0, NodeKind::Term) {
        assert forall|i: int| 0 <= i < sub.data@.len() implies has_kind(t, (#[trigger] sub.data@[i]).1.0, NodeKind::Term) by {
            let s = sub.data@[i].0;
            assert(sub.has(s));
            assert(sub.as_map().dom().contains(s));
            assert(sub.spec_get(s) == Some(sub.data@[i].1));
        }
    }
}

/// Inserting a term of the store keeps a substitution valid in it.
pub proof fn lemma_insert_valid(t: Seq<NodeData>, before: Sub, after: Sub, s: SymbolId, v: TermId)
    requires
        before.wf(),
        after.wf(),
        sub_valid_in(t, before),
        has_kind(t, v.0, NodeKind::Term),
        after.as_map() == before.as_map().insert(s, v),
    ensures
        sub_valid_in(t, after),
{
    lemma_sub_valid_iff_map(t, before);
    lemma_sub_valid_iff_map(t, after);
    assert forall|x: SymbolId| #[trigger] after.as_map().dom().contains(x) implies has_kind(t, after.as_map()[x].0, NodeKind::Term) by {
        if x != s {
            assert(before.as_map().dom().contains(x));
        }
    }
}

/// Copying a node gives back its tree: a copy denotes what it was copied
/// from.
pub proof fn lemma_copy_same_tree(t: Seq<NodeData>, i: usize, once: bool, vis: Set<usize>)
    requires
        wf(t),
        i < t.len(),
    ensures
        fmap_spec(CopyMapper, t, i, once, vis).0 == tree(t, i),
    decreases i, 1int, 0int,
{
    let n = t[i as int];
    lemma_tree_unfold(t, i);
    assert(node_ok(t, i as int, n));
    let k = kind_of(n);
    if k == NodeKind::FnDef && once && vis.contains(i) {
    } else if is_atom_kind(k) {
        let vis1 = if k == NodeKind::FnDef && once { vis.insert(i) } else { vis };
        lemma_copy_kids_same(t, children(n), i, once, vis1);
    } else {
        lemma_copy_kids_same(t, children(n), i, once, vis);
    }
}

/// Copying the children of a node gives back their trees.
pub proof fn lemma_copy_kids_same(t: Seq<NodeData>, ks: Seq<usize>, bound: usize, once: bool, vis: Set<usize>)
    requires
        wf(t),
        bound < t.len(),
        forall|k: int| 0 <= k < ks.len() ==> #[trigger] ks[k] < bound,
    ensures
        fmap_kids(CopyMapper, t, ks, bound, once, vis).0 == trees(t, ks),
    decreases bound, 0int, ks.len(),
{
    if ks.len() > 0 {
        let init = ks.drop_last();
        assert forall|k: int| 0 <= k < init.len() implies #[trigger] init[k] < bound by {
            assert(init[k] == ks[k]);
        }
        lemma_copy_kids_same(t, init, bound, once, vis);
        let pre = fmap_kids(CopyMapper, t, init, bound, once, vis);
        assert(ks[ks.len() - 1] < bound);
        lemma_copy_same_tree(t, ks.last(), once, pre.1);
        assert(trees(t, ks) =~= trees(t, init).push(tree(t, ks.last())));
    }
}

/// A search for variables that the filter does not look for finds none.
pub proof fn lemma_search_finds_nothing(filter: VarFilter, t: Seq<NodeData>, i: usize, once: bool, vis: Set<usize>)
    requires
        forall|s: SymbolId| !filter.spec_matches(s),
    ensures
        visit_spec(ContainsVars { filter, can_apply: false }, t, i, once, vis).0 == (ContainsVars { filter, can_apply: false }),
    decreases i, 1int, 0int,
{
    if i < t.len() {
        let n = t[i as int];
        let k = kind_of(n);
        if k == NodeKind::FnDef && once && vis.contains(i) {
        } else if is_atom_kind(k) {
            let vis1 = if k == NodeKind::FnDef && once { vis.insert(i) } else { vis };
            lemma_search_kids_find_nothing(filter, t, children(n), i, once, vis1);
        } else {
            lemma_search_kids_find_nothing(filter, t, children(n), i, once, vis);
        }
    }
}

/// A search of children for variables that the filter does not look for
/// finds none.
pub proof fn lemma_search_kids_find_nothing(filter: VarFilter, t: Seq<NodeData>, ks: Seq<usize>, bound: usize, once: bool, vis: Set<usize>)
    requires
        forall|s: SymbolId| !filter.spec_matches(s),
    ensures
        visit_kids(ContainsVars { filter, can_apply: false }, t, ks, bound, once, vis).0 == (ContainsVars { filter, can_apply: false }),
    decreases bound, 0int, ks.len(),
{
    if ks.len() > 0 {
        lemma_search_kids_find_nothing(filter, t, ks.drop_last(), bound, once, vis);
        let pre = visit_kids(ContainsVars { filter, can_apply: false }, t, ks.drop_last(), bound, once, vis);
        if ks.last() < bound {
            lemma_search_finds_nothing(filter, t, ks.last(), once, pre.1);
        }
    }
}

/// A substitution that applies to nothing in a term gives back the term's
/// tree; in particular the empty substitution does.
pub proof fn lemma_sub_not_applying_is_identity(t: Seq<NodeData>, sub: Sub, x: TermId)
    requires
        wf(t),
        has_kind(t, x.0, NodeKind::Term),
        !spec_can_apply(t, Atom::Term(x), sub) || sub.data@.len() == 0,
    ensures
        fmap_spec(SubMapper { sub: &sub }, t, x.0, true, Set::empty()).0 == tree(t, x.0),
{
    if sub.data@.len() == 0 {
        assert forall|s: SymbolId| !VarFilter::InSub(&sub).spec_matches(s) by {}
        lemma_search_finds_nothing(VarFilter::InSub(&sub), t, x.0, true, Set::empty());
    }
    assert(atom_at(NodeKind::Term, x.0) == Atom::Term(x));
}

/// One insertion of an entry from `name` to the substituted `value`, seen
/// in the store `t`: `after` is `before` with that entry, unless the
/// substituted value is the variable `name` itself.
pub open spec fn insert_step(t: Seq<NodeData>, before: Sub, after: Sub, name: SymbolId, value: TermId) -> bool {
    let subbed = fmap_spec(SubMapper { sub: &before }, t, value.0, true, Set::empty()).0;
    if subbed == var_tree(name) {
        after.as_map() == before.as_map()
    } else {
        exists|v: TermId|
            has_kind(t, v.0, NodeKind::Term) && #[trigger] tree(t, v.0) == subbed && after.as_map()
                == before.as_map().insert(name, v)
    }
}

/// An insertion step seen in a store is seen alike in a store that extends
/// it.
pub proof fn lemma_insert_step_stable(t1: Seq<NodeData>, t2: Seq<NodeData>, before: Sub, after: Sub, name: SymbolId, value: TermId)
    requires
        wf(t1),
        wf(t2),
        extends(t2, t1),
        sub_valid_in(t1, before),
        has_kind(t1, value.0, NodeKind::Term),
        insert_step(t1, before, after, name, value),
    ensures
        insert_step(t2, before, after, name, value),
{
    crate::tir::visitor::lemma_fmap_stable(SubMapper { sub: &before }, t1, t2, value.0, true, Set::empty());
    let subbed = fmap_spec(SubMapper { sub: &before }, t1, value.0, true, Set::empty()).0;
    if subbed != var_tree(name) {
        let v = choose|v: TermId|
            has_kind(t1, v.0, NodeKind::Term) && #[trigger] tree(t1, v.0) == subbed && after.as_map()
                == before.as_map().insert(name, v);
        crate::tir::store::lemma_tree_stable(t1, t2, v.0);
        assert(has_kind(t2, v.0, NodeKind::Term));
        assert(tree(t2, v.0) == subbed);
    }
}

/// The names of the parameters.
pub open spec fn param_names(ps: Seq<Param>) -> Set<SymbolId> {
    ps.map_values(|p: Param| p.name).to_set()
}

/// The parameter `after` is `before` with the substitution `sub` applied
/// to its type and default value, seen in the store `t`.
pub open spec fn param_substituted(t: Seq<NodeData>, sub: Sub, before: Param, after: Param) -> bool {
    &&& after.name == before.name
    &&& has_kind(t, after.ty.0, NodeKind::Term)
    &&& tree(t, after.ty.0) == fmap_spec(SubMapper { sub: &sub }, t, before.ty.0, true, Set::empty()).0
    &&& match (before.default, after.default) {
        (Some(d), Some(d2)) => has_kind(t, d2.0, NodeKind::Term) && tree(t, d2.0) == fmap_spec(
            SubMapper { sub: &sub },
            t,
            d.0,
            true,
            Set::empty(),
        ).0,
        (None, None) => true,
        _ => false,
    }
}

/// A substituted parameter seen in a store is seen alike in a store that
/// extends it.
pub proof fn lemma_param_substituted_stable(t1: Seq<NodeData>, t2: Seq<NodeData>, sub: Sub, before: Param, after: Param)
    requires
        wf(t1),
        wf(t2),
        extends(t2, t1),
        sub_valid_in(t1, sub),
        has_kind(t1, before.ty.0, NodeKind::Term),
        before.default matches Some(d) ==> has_kind(t1, d.0, NodeKind::Term),
        param_substituted(t1, sub, before, after),
    ensures
        param_substituted(t2, sub, before, after),
{
    crate::tir::visitor::lemma_fmap_stable(SubMapper { sub: &sub }, t1, t2, before.ty.0, true, Set::empty());
    crate::tir::store::lemma_tree_stable(t1, t2, after.ty.0);
    if let (Some(d), Some(d2)) = (before.default, after.default) {
        crate::tir::visitor::lemma_fmap_stable(SubMapper { sub: &sub }, t1, t2, d.0, true, Set::empty());
        crate::tir::store::lemma_tree_stable(t1, t2, d2.0);
    }
}

/// Removing an entry keeps a substitution valid in the store.
pub proof fn lemma_remove_valid(t: Seq<NodeData>, before: Sub, after: Sub, s: SymbolId)
    requires
        before.wf(),
        after.wf(),
        sub_valid_in(t, before),
        after.as_map() == before.as_map().remove(s),
    ensures
        sub_valid_in(t, after),
{
    lemma_sub_valid_iff_map(t, before);
    lemma_sub_valid_iff_map(t, after);
    assert forall|x: SymbolId| #[trigger] after.as_map().dom().contains(x) implies has_kind(t, after.as_map()[x].0, NodeKind::Term) by {
        assert(before.as_map().dom().contains(x));
    }
}

/// Operations to substitute variables in types and terms.
pub struct SubstitutionOps;

impl SubstitutionOps {
    /// Create the operations.
    pub fn new() -> Self {
        SubstitutionOps
    }

    /// The variable or hole that a term is, if it is one.
    fn var_or_hole(&self, tir: &Tir, x: TermId) -> (r: Option<SymbolId>)
        requires
            tir.is_term(x),
        ensures
            r == var_or_hole_at(tir.nodes@, x.0),
    {
        match tir.get_term(x) {
            Term::Var(s) => Some(s),
            Term::Hole(s) => Some(s),
            _ => None,
        }
    }

    /// One step of the search for variables: once one has been found the
    /// search stops; a variable or hole that the filter looks for is
    /// recorded and ends the search of its subtree.
    pub fn atom_contains_vars_once(&self, tir: &Tir, atom: Atom, var_matches: &VarFilter, can_apply: &mut bool) -> (r: ControlFlow<()>)
        requires
            tir.inv(),
            atom_ok(tir.nodes@, atom),
        ensures
            (*final(can_apply), r) == contains_vars_step(tir.nodes@, atom, *var_matches, *old(can_apply)),
    {
        if *can_apply {
            return ControlFlow::Break(());
        }
        match atom {
            Atom::Term(x) => match self.var_or_hole(tir, x) {
                Some(s) => if var_matches.matches(s) {
                    *can_apply = true;
                    ControlFlow::Break(())
                } else {
                    ControlFlow::Continue(())
                },
                None => ControlFlow::Continue(()),
            },
            _ => ControlFlow::Continue(()),
        }
    }

    /// One step of the search for variables that the substitution has an
    /// entry for.
    pub fn can_apply_sub_to_atom_once(&self, tir: &Tir, atom: Atom, sub: &Sub, can_apply: &mut bool) -> (r: ControlFlow<()>)
        requires
            tir.inv(),
            atom_ok(tir.nodes@, atom),
        ensures
            (*final(can_apply), r) == contains_vars_step(tir.nodes@, atom, VarFilter::InSub(sub), *old(can_apply)),
    {
        self.atom_contains_vars_once(tir, atom, &VarFilter::InSub(sub), can_apply)
    }

    /// Whether the atom contains a variable or hole that the filter looks
    /// for.
    pub fn atom_contains_vars(&self, tir: &Tir, atom: Atom, filter: &VarFilter) -> (r: bool)
        requires
            tir.inv(),
            atom_ok(tir.nodes@, atom),
        ensures
            r == spec_contains_vars(tir.nodes@, atom, *filter),
    {
        let mut v = Visitor::new();
        let mut search = ContainsVars { filter: match filter {
            VarFilter::InSub(s) => VarFilter::InSub(*s),
            VarFilter::InNames(n) => VarFilter::InNames(*n),
        }, can_apply: false };
        v.visit_atom(tir, atom, &mut search);
        search.can_apply
    }

    /// Whether the substitution applies to the atom.
    pub fn can_apply_sub_to_atom(&self, tir: &Tir, atom: Atom, sub: &Sub) -> (r: bool)
        requires
            tir.inv(),
            atom_ok(tir.nodes@, atom),
        ensures
            r == spec_can_apply(tir.nodes@, atom, *sub),
    {
        let mut v = Visitor::new();
        let mut search = ContainsVars { filter: VarFilter::InSub(sub), can_apply: false };
        v.visit_atom(tir, atom, &mut search);
        search.can_apply
    }

    /// One step of substitution on an atom.
    pub fn apply_sub_to_atom_once(&self, tir: &Tir, atom: Atom, sub: &Sub) -> (r: ControlFlow<Atom>)
        requires
            tir.inv(),
            atom_ok(tir.nodes@, atom),
        ensures
            r == spec_apply_sub_once(tir.nodes@, atom, *sub),
    {
        if !self.can_apply_sub_to_atom(tir, atom, sub) {
            return ControlFlow::Break(atom);
        }
        match atom {
            Atom::Term(x) => match self.var_or_hole(tir, x) {
                Some(s) => match sub.get_sub_for(s) {
                    Some(v) => ControlFlow::Break(Atom::Term(v)),
                    None => ControlFlow::Continue(()),
                },
                None => ControlFlow::Continue(()),
            },
            _ => ControlFlow::Continue(()),
        }
    }

    /// Apply the substitution to an atom, returning the resulting atom.
    pub fn apply_sub_to_atom(&self, tir: &mut Tir, atom: Atom, sub: &Sub) -> (r: Atom)
        requires
            old(tir).inv(),
            sub_valid_in(old(tir).nodes@, *sub),
            atom_ok(old(tir).nodes@, atom),
        ensures
            final(tir).inv(),
            extends(final(tir).nodes@, old(tir).nodes@),
            final(tir).symbols == old(tir).symbols,
            atom_ok(final(tir).nodes@, r),
            tree(final(tir).nodes@, atom_index(r)) == fmap_spec(
                SubMapper { sub },
                old(tir).nodes@,
                atom_index(atom),
                true,
                Set::empty(),
            ).0,
    {
        let mut v = Visitor::new();
        v.fmap_atom(tir, atom, &SubMapper { sub })
    }

    /// Apply the substitution to a term, returning the resulting term.
    pub fn apply_sub_to_term(&self, tir: &mut Tir, term: TermId, sub: &Sub) -> (r: TermId)
        requires
            old(tir).inv(),
            sub_valid_in(old(tir).nodes@, *sub),
            old(tir).is_term(term),
        ensures
            final(tir).inv(),
            extends(final(tir).nodes@, old(tir).nodes@),
            final(tir).symbols == old(tir).symbols,
            final(tir).is_term(r),
            tree(final(tir).nodes@, r.0) == fmap_spec(SubMapper { sub }, old(tir).nodes@, term.0, true, Set::empty()).0,
            !spec_can_apply(old(tir).nodes@, Atom::Term(term), *sub) ==> r == term && final(tir).nodes@ == old(
                tir,
            ).nodes@,
    {
        let mut v = Visitor::new();
        proof {
            assert(atom_at(NodeKind::Term, term.0) == Atom::Term(term));
        }
        v.map_term(tir, term, &SubMapper { sub })
    }

    /// Apply the substitution to a type, returning the resulting type.
    pub fn apply_sub_to_ty(&self, tir: &mut Tir, ty: TyId, sub: &Sub) -> (r: TyId)
        requires
            old(tir).inv(),
            sub_valid_in(old(tir).nodes@, *sub),
            old(tir).is_term(ty),
        ensures
            final(tir).inv(),
            extends(final(tir).nodes@, old(tir).nodes@),
            final(tir).symbols == old(tir).symbols,
            final(tir).is_term(r),
            tree(final(tir).nodes@, r.0) == fmap_spec(SubMapper { sub }, old(tir).nodes@, ty.0, true, Set::empty()).0,
    {
        self.apply_sub_to_term(tir, ty, sub)
    }

    /// Apply the substitution to a pattern, returning the resulting pattern.
    pub fn apply_sub_to_pat(&self, tir: &mut Tir, pat: PatId, sub: &Sub) -> (r: PatId)
        requires
            old(tir).inv(),
            sub_valid_in(old(tir).nodes@, *sub),
            has_kind(old(tir).nodes@, pat.0, NodeKind::Pat),
        ensures
            final(tir).inv(),
            extends(final(tir).nodes@, old(tir).nodes@),
            final(tir).symbols == old(tir).symbols,
            has_kind(final(tir).nodes@, r.0, NodeKind::Pat),
            tree(final(tir).nodes@, r.0) == fmap_spec(SubMapper { sub }, old(tir).nodes@, pat.0, true, Set::empty()).0,
    {
        let mut v = Visitor::new();
        v.fmap_pat(tir, pat, &SubMapper { sub })
    }

    /// Apply the substitution to arguments, returning the resulting ones.
    pub fn apply_sub_to_args(&self, tir: &mut Tir, args: ArgsId, sub: &Sub) -> (r: ArgsId)
        requires
            old(tir).inv(),
            sub_valid_in(old(tir).nodes@, *sub),
            has_kind(old(tir).nodes@, args.0, NodeKind::Args),
        ensures
            final(tir).inv(),
            extends(final(tir).nodes@, old(tir).nodes@),
            final(tir).symbols == old(tir).symbols,
            has_kind(final(tir).nodes@, r.0, NodeKind::Args),
            tree(final(tir).nodes@, r.0) == fmap_spec(SubMapper { sub }, old(tir).nodes@, args.0, true, Set::empty()).0,
    {
        let mut v = Visitor::new();
        v.fmap_args(tir, args, &SubMapper { sub })
    }

    /// Apply the substitution to parameters, returning the resulting ones.
    pub fn apply_sub_to_params(&self, tir: &mut Tir, params: ParamsId, sub: &Sub) -> (r: ParamsId)
        requires
            old(tir).inv(),
            sub_valid_in(old(tir).nodes@, *sub),
            has_kind(old(tir).nodes@, params.0, NodeKind::Params),
        ensures
            final(tir).inv(),
            extends(final(tir).nodes@, old(tir).nodes@),
            final(tir).symbols == old(tir).symbols,
            has_kind(final(tir).nodes@, r.0, NodeKind::Params),
            tree(final(tir).nodes@, r.0) == fmap_spec(SubMapper { sub }, old(tir).nodes@, params.0, true, Set::empty()).0,
    {
        let mut v = Visitor::new();
        v.fmap_params(tir, params, &SubMapper { sub })
    }

    /// One step of the search for holes: a hole is recorded and ends the
    /// search of its subtree.
    pub fn has_holes_once(&self, tir: &Tir, atom: Atom, has_holes: &mut Option<Atom>) -> (r: ControlFlow<()>)
        requires
            tir.inv(),
            atom_ok(tir.nodes@, atom),
        ensures
            (HoleFinder { has_holes: *final(has_holes) }, r) == (HoleFinder { has_holes: *old(has_holes) }).spec_step(tir.nodes@, atom),
    {
        match atom {
            Atom::Term(x) => match tir.get_term(x) {
                Term::Hole(_) => {
                    *has_holes = Some(atom);
                    ControlFlow::Break(())
                },
                _ => ControlFlow::Continue(()),
            },
            _ => ControlFlow::Continue(()),
        }
    }

    /// The last hole that a search of the atom meets, if any.
    pub fn atom_has_holes(&self, tir: &Tir, atom: Atom) -> (r: Option<Atom>)
        requires
            tir.inv(),
            atom_ok(tir.nodes@, atom),
        ensures
            r == visit_spec(HoleFinder { has_holes: None }, tir.nodes@, atom_index(atom), true, Set::empty()).0.has_holes,
            r is Some <==> hole_below(tir.nodes@, atom_index(atom)),
            r matches Some(a) ==> a is Term && is_hole_at(tir.nodes@, atom_index(a)),
    {
        proof {
            lemma_hole_search_finds_holes(tir.nodes@, atom_index(atom));
        }
        let mut v = Visitor::new();
        let mut finder = HoleFinder { has_holes: None };
        v.visit_atom(tir, atom, &mut finder);
        finder.has_holes
    }

    /// The last hole that a search of the arguments meets, if any.
    pub fn args_have_holes(&self, tir: &Tir, args: ArgsId) -> (r: Option<Atom>)
        requires
            tir.inv(),
            has_kind(tir.nodes@, args.0, NodeKind::Args),
        ensures
            r == visit_spec(HoleFinder { has_holes: None }, tir.nodes@, args.0, true, Set::empty()).0.has_holes,
            r is Some <==> hole_below(tir.nodes@, args.0),
            r matches Some(a) ==> a is Term && is_hole_at(tir.nodes@, atom_index(a)),
    {
        proof {
            lemma_hole_search_finds_holes(tir.nodes@, args.0);
        }
        let mut v = Visitor::new();
        let mut finder = HoleFinder { has_holes: None };
        v.visit_args(tir, args, &mut finder);
        finder.has_holes
    }

    /// The last hole that a search of the parameters meets, if any.
    pub fn params_have_holes(&self, tir: &Tir, params: ParamsId) -> (r: Option<Atom>)
        requires
            tir.inv(),
            has_kind(tir.nodes@, params.0, NodeKind::Params),
        ensures
            r == visit_spec(HoleFinder { has_holes: None }, tir.nodes@, params.0, true, Set::empty()).0.has_holes,
            r is Some <==> hole_below(tir.nodes@, params.0),
            r matches Some(a) ==> a is Term && is_hole_at(tir.nodes@, atom_index(a)),
    {
        proof {
            lemma_hole_search_finds_holes(tir.nodes@, params.0);
        }
        let mut v = Visitor::new();
        let mut finder = HoleFinder { has_holes: None };
        v.visit_params(tir, params, &mut finder);
        finder.has_holes
    }

    /// The last hole that a search of the module definition meets, if any:
    /// its members are searched in order.
    pub fn mod_def_has_holes(&self, tir: &Tir, defs: &Defs, mod_def_id: ModDefId) -> (r: Option<Atom>)
        requires
            tir.inv(),
            defs.wf(tir.nodes@),
            (mod_def_id.0 as int) < defs.mod_defs@.len(),
        ensures
            r == visit_seq(
                HoleFinder { has_holes: None },
                tir.nodes@,
                defs.mod_def_nodes(mod_def_id.0 as int),
                true,
                Set::empty(),
            ).0.has_holes,
            r is Some <==> exists|k: int|
                0 <= k < defs.mod_def_nodes(mod_def_id.0 as int).len() && #[trigger] hole_below(
                    tir.nodes@,
                    defs.mod_def_nodes(mod_def_id.0 as int)[k],
                ),
            r matches Some(a) ==> a is Term && is_hole_at(tir.nodes@, atom_index(a)),
    {
        proof {
            let m = mod_def_id.0 as int;
            crate::tir::defs::lemma_members_nodes_in(defs, tir.nodes@, m, defs.mod_defs@[m].members@.len() as int);
            lemma_hole_search_seq(tir.nodes@, HoleFinder { has_holes: None }, defs.mod_def_nodes(m), Set::empty());
        }
        let mut v = Visitor::new();
        let mut finder = HoleFinder { has_holes: None };
        v.visit_mod_def(tir, defs, mod_def_id, &mut finder);
        finder.has_holes
    }

    /// Copy an atom, returning a new atom that denotes the same tree.
    pub fn copy_atom(&self, tir: &mut Tir, atom: Atom) -> (r: Atom)
        requires
            old(tir).inv(),
            atom_ok(old(tir).nodes@, atom),
        ensures
            final(tir).inv(),
            extends(final(tir).nodes@, old(tir).nodes@),
            final(tir).symbols == old(tir).symbols,
            atom_ok(final(tir).nodes@, r),
            tree(final(tir).nodes@, atom_index(r)) == fmap_spec(CopyMapper, old(tir).nodes@, atom_index(atom), true, Set::empty()).0,
    {
        let mut v = Visitor::new();
        v.fmap_atom(tir, atom, &CopyMapper)
    }

    /// Copy a type, returning a new type that denotes the same tree.
    pub fn copy_ty(&self, tir: &mut Tir, ty: TyId) -> (r: TyId)
        requires
            old(tir).inv(),
            old(tir).is_term(ty),
        ensures
            final(tir).inv(),
            extends(final(tir).nodes@, old(tir).nodes@),
            final(tir).symbols == old(tir).symbols,
            final(tir).is_term(r),
            tree(final(tir).nodes@, r.0) == fmap_spec(CopyMapper, old(tir).nodes@, ty.0, true, Set::empty()).0,
    {
        let mut v = Visitor::new();
        v.map_term(tir, ty, &CopyMapper)
    }

    /// Copy parameters, returning new parameters that denote the same tree.
    pub fn copy_params(&self, tir: &mut Tir, params: ParamsId) -> (r: ParamsId)
        requires
            old(tir).inv(),
            has_kind(old(tir).nodes@, params.0, NodeKind::Params),
        ensures
            final(tir).inv(),
            extends(final(tir).nodes@, old(tir).nodes@),
            final(tir).symbols == old(tir).symbols,
            has_kind(final(tir).nodes@, r.0, NodeKind::Params),
            tree(final(tir).nodes@, r.0) == fmap_spec(CopyMapper, old(tir).nodes@, params.0, true, Set::empty()).0,
    {
        let mut v = Visitor::new();
        v.fmap_params(tir, params, &CopyMapper)
    }
    /// Insert the entry from `name` to `value` into the substitution, with
    /// the substitution applied to `value` first, unless that gives the
    /// variable `name` itself.
    pub fn insert_to_sub_if_needed(&self, tir: &mut Tir, sub: &mut Sub, name: SymbolId, value: TermId)
        requires
            old(tir).inv(),
            old(sub).wf(),
            sub_valid_in(old(tir).nodes@, *old(sub)),
            old(tir).is_term(value),
        ensures
            final(tir).inv(),
            extends(final(tir).nodes@, old(tir).nodes@),
            final(tir).symbols == old(tir).symbols,
            final(sub).wf(),
            sub_valid_in(final(tir).nodes@, *final(sub)),
            ({
                let subbed = fmap_spec(SubMapper { sub: &*old(sub) }, old(tir).nodes@, value.0, true, Set::empty()).0;
                if subbed == var_tree(name) {
                    final(sub).as_map() == old(sub).as_map()
                } else {
                    exists|v: TermId|
                        final(tir).is_term(v) && tree(final(tir).nodes@, v.0) == subbed && final(sub).as_map()
                            == old(sub).as_map().insert(name, v)
                }
            }),
    {
        let ghost t0 = tir.nodes@;
        let subbed_value = self.apply_sub_to_term(tir, value, sub);
        proof {
            lemma_tree_unfold(tir.nodes@, subbed_value.0);
            lemma_sub_valid_stable(t0, tir.nodes@, *sub);
        }
        let is_same_var = match tir.get_term(subbed_value) {
            Term::Var(v) => v == name,
            _ => false,
        };
        proof {
            let n = tir.nodes@[subbed_value.0 as int];
            if is_same_var {
                assert(children(n) =~= Seq::<usize>::empty());
                assert(trees(tir.nodes@, children(n)) =~= Seq::<Tree>::empty());
            } else {
                if tag_of(n) == tag_of(NodeData::Term(Term::Var(name))) {
                    let v = n->Term_0->Var_0;
                    assert(data_of(n)[0][0] == v.0);
                    assert(data_of(NodeData::Term(Term::Var(name)))[0][0] == name.0);
                    assert(data_of(n) != data_of(NodeData::Term(Term::Var(name))));
                }
            }
        }
        if !is_same_var {
            let ghost sub0 = *sub;
            sub.insert(name, subbed_value);
            proof {
                lemma_insert_valid(tir.nodes@, sub0, *sub, name, subbed_value);
            }
        }
    }

    /// A substitution from the names of `src_params` to the variables of
    /// the names of `target_params`, pair by pair, skipping the pairs that
    /// have the same name.
    pub fn create_sub_from_param_names(&self, tir: &mut Tir, src_params: ParamsId, target_params: ParamsId) -> (r: Sub)
        requires
            old(tir).inv(),
            has_kind(old(tir).nodes@, src_params.0, NodeKind::Params),
            has_kind(old(tir).nodes@, target_params.0, NodeKind::Params),
        ensures
            final(tir).inv(),
            extends(final(tir).nodes@, old(tir).nodes@),
            final(tir).symbols == old(tir).symbols,
            r.wf(),
            sub_valid_in(final(tir).nodes@, r),
            ({
                let src = params_at(old(tir).nodes@, src_params);
                let tgt = params_at(old(tir).nodes@, target_params);
                let k = if src.len() < tgt.len() { src.len() } else { tgt.len() };
                sub_is_vars(final(tir).nodes@, r, renaming(src, tgt, k as int))
            }),
    {
        let src = tir.params_of(src_params);
        let tgt = tir.params_of(target_params);
        let ghost t0 = tir.nodes@;
        let mut sub = Sub::identity();
        assert(sub.as_map().dom() =~= Set::<SymbolId>::empty());
        let mut k: usize = 0;
        while k < src.len() && k < tgt.len()
            invariant
                k <= src@.len(),
                k <= tgt@.len(),
                src@ == params_at(t0, src_params),
                tgt@ == params_at(t0, target_params),
                tir.inv(),
                extends(tir.nodes@, t0),
                tir.symbols == old(tir).symbols,
                sub.wf(),
                sub_valid_in(tir.nodes@, sub),
                sub_is_vars(tir.nodes@, sub, renaming(src@, tgt@, k as int)),
            decreases src@.len() - k,
        {
            if src[k].name != tgt[k].name {
                let ghost t1 = tir.nodes@;
                let ghost sub1 = sub;
                let v = tir.new_term(Term::Var(tgt[k].name));
                proof {
                    lemma_sub_valid_stable(t1, tir.nodes@, sub);
                }
                sub.insert(src[k].name, v);
                proof {
                    let m = renaming(src@, tgt@, k + 1);
                    assert forall|s: SymbolId| #[trigger] m.dom().contains(s) implies {
                        &&& sub.as_map()[s].0 < tir.nodes@.len()
                        &&& tir.nodes@[sub.as_map()[s].0 as int] == NodeData::Term(Term::Var(m[s]))
                    } by {
                        if s != src@[k as int].name {
                            assert(sub.as_map()[s] == sub1.as_map()[s]);
                        }
                    }
                    assert(sub.as_map().dom() =~= m.dom());
                    lemma_insert_valid(tir.nodes@, sub1, sub, src@[k as int].name, v);
                }
            }
            k = k + 1;
        }
        sub
    }
    /// A substitution from the names of the named parameters to accesses of
    /// `access_subject` by those names.
    pub fn create_sub_from_param_access(&self, tir: &mut Tir, params: ParamsId, access_subject: TermId) -> (r: Sub)
        requires
            old(tir).inv(),
            has_kind(old(tir).nodes@, params.0, NodeKind::Params),
            old(tir).is_term(access_subject),
        ensures
            final(tir).inv(),
            extends(final(tir).nodes@, old(tir).nodes@),
            final(tir).symbols == old(tir).symbols,
            r.wf(),
            sub_valid_in(final(tir).nodes@, r),
            ({
                let ps = params_at(old(tir).nodes@, params);
                sub_is_accesses(final(tir).nodes@, r, access_fields(old(tir).symbols@, ps, ps.len() as int), access_subject)
            }),
    {
        let ps = tir.params_of(params);
        let ghost t0 = tir.nodes@;
        let ghost syms = tir.symbols@;
        let mut sub = Sub::identity();
        assert(sub.as_map().dom() =~= Set::<SymbolId>::empty());
        let mut k: usize = 0;
        while k < ps.len()
            invariant
                k <= ps@.len(),
                ps@ == params_at(t0, params),
                syms == tir.symbols@,
                tir.inv(),
                extends(tir.nodes@, t0),
                tir.symbols == old(tir).symbols,
                has_kind(tir.nodes@, access_subject.0, NodeKind::Term),
                sub.wf(),
                sub_valid_in(tir.nodes@, sub),
                sub_is_accesses(tir.nodes@, sub, access_fields(syms, ps@, k as int), access_subject),
            decreases ps@.len() - k,
        {
            match tir.ident_of(ps[k].name) {
                Some(ident) => {
                    let ghost t1 = tir.nodes@;
                    let ghost sub1 = sub;
                    let v = tir.new_term(Term::Access { subject: access_subject, field: ParamIndex::Name(ident) });
                    proof {
                        lemma_sub_valid_stable(t1, tir.nodes@, sub);
                    }
                    sub.insert(ps[k].name, v);
                    proof {
                        let m = access_fields(syms, ps@, k + 1);
                        assert forall|s: SymbolId| #[trigger] m.dom().contains(s) implies {
                            &&& sub.as_map()[s].0 < tir.nodes@.len()
                            &&& tir.nodes@[sub.as_map()[s].0 as int] == NodeData::Term(Term::Access { subject: access_subject, field: ParamIndex::Name(m[s]) })
                        } by {
                            if s != ps@[k as int].name {
                                assert(sub.as_map()[s] == sub1.as_map()[s]);
                            }
                        }
                        assert(sub.as_map().dom() =~= m.dom());
                        lemma_insert_valid(tir.nodes@, sub1, sub, ps@[k as int].name, v);
                    }
                },
                None => {},
            }
            k = k + 1;
        }
        sub
    }

    /// Reverse a substitution whose terms are all variables or holes: each
    /// of those symbols maps to a variable of the name of its entry, later
    /// entries taking precedence.
    pub fn reverse_sub(&self, tir: &mut Tir, sub: &Sub) -> (r: Sub)
        requires
            old(tir).inv(),
            sub_valid_in(old(tir).nodes@, *sub),
            sub_of_vars_or_holes(old(tir).nodes@, *sub),
        ensures
            final(tir).inv(),
            extends(final(tir).nodes@, old(tir).nodes@),
            final(tir).symbols == old(tir).symbols,
            r.wf(),
            sub_valid_in(final(tir).nodes@, r),
            sub_is_vars(final(tir).nodes@, r, reversal(old(tir).nodes@, sub.data@, sub.data@.len() as int)),
    {
        let entries = sub.iter();
        let ghost t0 = tir.nodes@;
        let mut rev = Sub::identity();
        assert(rev.as_map().dom() =~= Set::<SymbolId>::empty());
        let mut k: usize = 0;
        while k < entries.len()
            invariant
                k <= entries@.len(),
                entries@ == sub.data@,
                sub_valid_in(t0, *sub),
                sub_of_vars_or_holes(t0, *sub),
                tir.inv(),
                extends(tir.nodes@, t0),
                tir.symbols == old(tir).symbols,
                rev.wf(),
                sub_valid_in(tir.nodes@, rev),
                sub_is_vars(tir.nodes@, rev, reversal(t0, entries@, k as int)),
            decreases entries@.len() - k,
        {
            let (name, value) = entries[k];
            proof {
                assert(has_kind(t0, sub.data@[k as int].1.0, NodeKind::Term));
                assert(var_or_hole_at(t0, sub.data@[k as int].1.0) is Some);
            }
            let target = match tir.get_term(value) {
                Term::Var(v) => v,
                Term::Hole(h) => h,
                _ => {
                    proof {
                        assert(false);
                    }
                    name
                },
            };
            let ghost t1 = tir.nodes@;
            let ghost rev1 = rev;
            let v = tir.new_term(Term::Var(name));
            proof {
                lemma_sub_valid_stable(t1, tir.nodes@, rev);
            }
            rev.insert(target, v);
            proof {
                let m = reversal(t0, entries@, k + 1);
                assert(var_or_hole_at(t0, entries@[k as int].1.0).unwrap() == target);
                assert forall|s: SymbolId| #[trigger] m.dom().contains(s) implies {
                    &&& rev.as_map()[s].0 < tir.nodes@.len()
                    &&& tir.nodes@[rev.as_map()[s].0 as int] == NodeData::Term(Term::Var(m[s]))
                } by {
                    if s != target {
                        assert(rev.as_map()[s] == rev1.as_map()[s]);
                    }
                }
                assert(rev.as_map().dom() =~= m.dom());
                lemma_insert_valid(tir.nodes@, rev1, rev, target, v);
            }
            k = k + 1;
        }
        rev
    }

    /// Hide the given parameters from a substitution: the entries from their
    /// names, and those whose terms mention them, are left out.
    pub fn hide_param_binds(&self, tir: &Tir, params: &Vec<ParamId>, sub: &Sub) -> (r: Sub)
        requires
            tir.inv(),
            sub.wf(),
            sub_valid_in(tir.nodes@, *sub),
            param_ids_ok(tir.nodes@, params@),
        ensures
            r.wf(),
            sub_valid_in(tir.nodes@, r),
            exists|names: Vec<SymbolId>|
                #[trigger] names@ == names_of_params(tir.nodes@, params@) && r.data@ == sub.data@.filter(
                    |e: (SymbolId, TermId)| keeps_entry(tir.nodes@, &names, e),
                ),
    {
        let mut names: Vec<SymbolId> = Vec::new();
        let mut i: usize = 0;
        while i < params.len()
            invariant
                i <= params@.len(),
                tir.inv(),
                param_ids_ok(tir.nodes@, params@),
                names@ == names_of_params(tir.nodes@, params@).take(i as int),
            decreases params@.len() - i,
        {
            let p = params[i];
            let ps = tir.params_of(p.0);
            names.push(ps[p.1].name);
            assert(names_of_params(tir.nodes@, params@).take(i + 1) =~= names@);
            i = i + 1;
        }
        assert(names_of_params(tir.nodes@, params@).take(i as int) =~= names_of_params(tir.nodes@, params@));
        let filter = VarFilter::InNames(&names);
        let entries = sub.iter();
        let mut out = Sub::identity();
        let mut k: usize = 0;
        while k < entries.len()
            invariant
                k <= entries@.len(),
                entries@ == sub.data@,
                sub.wf(),
                tir.inv(),
                sub_valid_in(tir.nodes@, *sub),
                filter == VarFilter::InNames(&names),
                out.data@ == entries@.take(k as int).filter(|e: (SymbolId, TermId)| keeps_entry(tir.nodes@, &names, e)),
                forall|x: int, y: int| 0 <= x < out.data@.len() && k <= y < entries@.len() ==> (#[trigger] out.data@[x]).0 != (#[trigger] entries@[y]).0,
                out.wf(),
                sub_valid_in(tir.nodes@, out),
            decreases entries@.len() - k,
        {
            let (name, value) = entries[k];
            let ghost before = out.data@;
            proof {
                assert(entries@.take(k + 1).drop_last() =~= entries@.take(k as int));
                assert(has_kind(tir.nodes@, entries@[k as int].1.0, NodeKind::Term));
            }
            let hidden_name = filter.matches(name);
            let mut keep = !hidden_name;
            if keep {
                if self.atom_contains_vars(tir, Atom::Term(value), &filter) {
                    keep = false;
                }
            }
            if keep {
                proof {
                    assert(!out.has(name)) by {
                        if out.has(name) {
                            let x = choose|x: int| 0 <= x < out.data@.len() && out.data@[x].0 == name;
                            assert(out.data@[x].0 != entries@[k as int].0);
                        }
                    }
                }
                out.insert(name, value);
                proof {
                    assert(out.data@ == before.push((name, value)));
                    assert(keeps_entry(tir.nodes@, &names, entries@[k as int]));
                }
            } else {
                proof {
                    assert(!keeps_entry(tir.nodes@, &names, entries@[k as int]));
                }
            }
            proof {
                assert(entries@.take(k + 1).filter(|e: (SymbolId, TermId)| keeps_entry(tir.nodes@, &names, e)) == out.data@) by {
                    reveal(Seq::filter);
                }
                assert forall|x: int, y: int| 0 <= x < out.data@.len() && k + 1 <= y < entries@.len() implies (#[trigger] out.data@[x]).0 != (#[trigger] entries@[y]).0 by {
                    if x < before.len() {
                        assert(out.data@[x] == before[x]);
                    } else {
                        assert(out.data@[x] == entries@[k as int]);
                        assert(entries@[k as int].0 != entries@[y].0);
                    }
                }
                assert forall|x: int| 0 <= x < out.data@.len() implies has_kind(tir.nodes@, (#[trigger] out.data@[x]).1.0, NodeKind::Term) by {
                    if x < before.len() {
                        assert(out.data@[x] == before[x]);
                    } else {
                        assert(out.data@[x] == entries@[k as int]);
                    }
                }
            }
            k = k + 1;
        }
        assert(entries@.take(k as int) =~= entries@);
        out
    }
    /// A substitution from the names of the parameters to the values of the
    /// arguments, pair by pair, each value with the substitution so far
    /// applied to it, and no entry where that gives the parameter's own
    /// variable. The arguments are expected in the order of the parameters.
    pub fn create_sub_from_args_of_params(&self, tir: &mut Tir, args_id: ArgsId, params_id: ParamsId) -> (r: Sub)
        requires
            old(tir).inv(),
            has_kind(old(tir).nodes@, args_id.0, NodeKind::Args),
            has_kind(old(tir).nodes@, params_id.0, NodeKind::Params),
            params_at(old(tir).nodes@, params_id).len() == args_at(old(tir).nodes@, args_id).len(),
        ensures
            final(tir).inv(),
            extends(final(tir).nodes@, old(tir).nodes@),
            final(tir).symbols == old(tir).symbols,
            r.wf(),
            sub_valid_in(final(tir).nodes@, r),
            ({
                let ps = params_at(old(tir).nodes@, params_id);
                let args = args_at(old(tir).nodes@, args_id);
                exists|subs: Seq<Sub>|
                    #![trigger subs.len()]
                    subs.len() == ps.len() + 1 && subs[0].data@.len() == 0 && subs[ps.len() as int].as_map()
                        == r.as_map() && forall|k: int|
                        0 <= k < ps.len() ==> #[trigger] insert_step(
                            final(tir).nodes@,
                            subs[k],
                            subs[k + 1],
                            ps[k].name,
                            args[k].value,
                        )
            }),
    {
        let ps = tir.params_of(params_id);
        let args = tir.args_of(args_id);
        let ghost t0 = tir.nodes@;
        let mut sub = Sub::identity();
        let ghost mut subs: Seq<Sub> = seq![sub];
        let mut k: usize = 0;
        while k < ps.len()
            invariant
                k <= ps@.len(),
                ps@.len() == args@.len(),
                ps@ == params_at(t0, params_id),
                args@ == args_at(t0, args_id),
                has_kind(t0, args_id.0, NodeKind::Args),
                wf(t0),
                tir.inv(),
                extends(tir.nodes@, t0),
                tir.symbols == old(tir).symbols,
                sub.wf(),
                sub_valid_in(tir.nodes@, sub),
                subs.len() == k + 1,
                subs[k as int] == sub,
                subs[0].data@.len() == 0,
                forall|j: int| 0 <= j <= k ==> sub_valid_in(tir.nodes@, #[trigger] subs[j]),
                forall|j: int| 0 <= j < k ==> #[trigger] insert_step(tir.nodes@, subs[j], subs[j + 1], ps@[j].name, args@[j].value),
            decreases ps@.len() - k,
        {
            let ghost t1 = tir.nodes@;
            proof {
                crate::tir::params::lemma_arg_value_term(t0, args_id, k as int);
                assert(has_kind(t1, args@[k as int].value.0, NodeKind::Term));
            }
            self.insert_to_sub_if_needed(tir, &mut sub, ps[k].name, args[k].value);
            proof {
                let t2 = tir.nodes@;
                assert forall|j: int| 0 <= j <= k implies sub_valid_in(t2, #[trigger] subs[j]) by {
                    lemma_sub_valid_stable(t1, t2, subs[j]);
                }
                crate::tir::visitor::lemma_fmap_stable(SubMapper { sub: &subs[k as int] }, t1, t2, args@[k as int].value.0, true, Set::empty());
                assert(insert_step(t2, subs[k as int], sub, ps@[k as int].name, args@[k as int].value));
                assert forall|j: int| 0 <= j < k implies #[trigger] insert_step(t2, subs[j], subs[j + 1], ps@[j].name, args@[j].value) by {
                    crate::tir::params::lemma_arg_value_term(t0, args_id, j);
                    lemma_insert_step_stable(t1, t2, subs[j], subs[j + 1], ps@[j].name, args@[j].value);
                }
                subs = subs.push(sub);
                assert forall|j: int| 0 <= j <= k + 1 implies sub_valid_in(t2, #[trigger] subs[j]) by {}
                assert forall|j: int| 0 <= j < k + 1 implies #[trigger] insert_step(t2, subs[j], subs[j + 1], ps@[j].name, args@[j].value) by {
                    if j < k {
                        assert(subs[j] == subs.drop_last()[j]);
                    }
                }
            }
            k = k + 1;
        }
        proof {
            assert(subs.len() == ps@.len() + 1);
        }
        sub
    }
    /// Apply the substitution to the parameters, in order, while handling
    /// shadowing: a parameter hides its name from the substitution for the
    /// parameters after it. Returns the new parameters, and the
    /// substitution without the names of all the parameters.
    pub fn properly_apply_sub_to_params(&self, tir: &mut Tir, params: ParamsId, sub: &Sub) -> (r: (ParamsId, Sub))
        requires
            old(tir).inv(),
            sub.wf(),
            sub_valid_in(old(tir).nodes@, *sub),
            has_kind(old(tir).nodes@, params.0, NodeKind::Params),
        ensures
            final(tir).inv(),
            extends(final(tir).nodes@, old(tir).nodes@),
            final(tir).symbols == old(tir).symbols,
            r.1.wf(),
            sub_valid_in(final(tir).nodes@, r.1),
            r.1.as_map() == sub.as_map().remove_keys(param_names(params_at(old(tir).nodes@, params))),
            has_kind(final(tir).nodes@, r.0.0, NodeKind::Params),
            ({
                let ps = params_at(old(tir).nodes@, params);
                let ps2 = params_at(final(tir).nodes@, r.0);
                &&& ps2.len() == ps.len()
                &&& exists|subs: Seq<Sub>|
                    #![trigger subs.len()]
                    subs.len() == ps.len() + 1 && subs[0].data@ == sub.data@ && forall|k: int|
                        0 <= k < ps.len() ==> {
                            &&& subs[k + 1].as_map() == subs[k].as_map().remove(ps[k].name)
                            &&& #[trigger] param_substituted(final(tir).nodes@, subs[k], ps[k], ps2[k])
                        }
            }),
    {
        let ps = tir.params_of(params);
        let ghost t0 = tir.nodes@;
        let mut filtered = sub.duplicate();
        let ghost mut subs: Seq<Sub> = seq![filtered];
        let mut out: Vec<Param> = Vec::new();
        let mut k: usize = 0;
        proof {
            assert(filtered.as_map() =~= sub.as_map()) by {
                assert forall|x: SymbolId| filtered.has(x) == sub.has(x) by {}
            }
            assert(param_names(ps@.take(0)) =~= Set::<SymbolId>::empty());
            assert(sub.as_map().remove_keys(Set::<SymbolId>::empty()) =~= sub.as_map());
        }
        while k < ps.len()
            invariant
                k <= ps@.len(),
                ps@ == params_at(t0, params),
                has_kind(t0, params.0, NodeKind::Params),
                wf(t0),
                sub.wf(),
                tir.inv(),
                extends(tir.nodes@, t0),
                tir.symbols == old(tir).symbols,
                filtered.wf(),
                sub_valid_in(tir.nodes@, filtered),
                filtered.as_map() == sub.as_map().remove_keys(param_names(ps@.take(k as int))),
                subs.len() == k + 1,
                subs[k as int] == filtered,
                subs[0].data@ == sub.data@,
                out@.len() == k,
                forall|j: int| 0 <= j <= k ==> sub_valid_in(tir.nodes@, #[trigger] subs[j]),
                forall|j: int| 0 <= j < k ==> #[trigger] subs[j + 1].as_map() == subs[j].as_map().remove(ps@[j].name),
                forall|j: int| 0 <= j < k ==> #[trigger] param_substituted(tir.nodes@, subs[j], ps@[j], out@[j]),
                forall|j: int| 0 <= j < k ==> crate::tir::params::param_ok(tir.nodes@, #[trigger] out@[j]),
            decreases ps@.len() - k,
        {
            let p = ps[k];
            let ghost t1 = tir.nodes@;
            proof {
                assert(crate::tir::params::param_ok(t0, ps@[k as int])) by {
                    lemma_param_parts(t0, params, k as int);
                }
            }
            let ty = self.apply_sub_to_ty(tir, p.ty, &filtered);
            let ghost t2 = tir.nodes@;
            proof {
                lemma_sub_valid_stable(t1, t2, filtered);
            }
            let default = match p.default {
                Some(d) => Some(self.apply_sub_to_term(tir, d, &filtered)),
                None => None,
            };
            let ghost t3 = tir.nodes@;
            let new_param = Param { name: p.name, ty, default };
            proof {
                crate::tir::visitor::lemma_fmap_stable(SubMapper { sub: &filtered }, t1, t3, p.ty.0, true, Set::empty());
                crate::tir::store::lemma_tree_stable(t2, t3, ty.0);
                if let Some(d) = p.default {
                    crate::tir::visitor::lemma_fmap_stable(SubMapper { sub: &filtered }, t2, t3, d.0, true, Set::empty());
                    crate::tir::visitor::lemma_fmap_stable(SubMapper { sub: &filtered }, t1, t2, d.0, true, Set::empty());
                }
                assert(param_substituted(t3, filtered, p, new_param));
                assert forall|j: int| 0 <= j < k implies #[trigger] param_substituted(t3, subs[j], ps@[j], out@[j]) by {
                    lemma_param_parts(t0, params, j);
                    lemma_param_substituted_stable(t1, t3, subs[j], ps@[j], out@[j]);
                }
                assert forall|j: int| 0 <= j <= k implies sub_valid_in(t3, #[trigger] subs[j]) by {
                    lemma_sub_valid_stable(t1, t3, subs[j]);
                }
                assert forall|j: int| 0 <= j < k implies crate::tir::params::param_ok(t3, #[trigger] out@[j]) by {
                    assert(crate::tir::params::param_ok(t1, out@[j]));
                }
            }
            out.push(new_param);
            let ghost before = filtered;
            filtered.remove(p.name);
            proof {
                lemma_remove_valid(t3, before, filtered, p.name);
                subs = subs.push(filtered);
                assert(ps@.take(k + 1) =~= ps@.take(k as int).push(p));
                assert(param_names(ps@.take(k + 1)) =~= param_names(ps@.take(k as int)).insert(p.name)) by {
                    let before_names = ps@.take(k as int).map_values(|q: Param| q.name);
                    assert(ps@.take(k + 1).map_values(|q: Param| q.name) =~= before_names.push(p.name));
                    before_names.lemma_push_to_set_commute(p.name);
                }
                assert(filtered.as_map() =~= sub.as_map().remove_keys(param_names(ps@.take(k + 1))));
                assert forall|j: int| 0 <= j <= k + 1 implies sub_valid_in(t3, #[trigger] subs[j]) by {}
                assert forall|j: int| 0 <= j < k + 1 implies #[trigger] subs[j + 1].as_map() == subs[j].as_map().remove(ps@[j].name) by {}
                assert forall|j: int| 0 <= j < k + 1 implies #[trigger] param_substituted(t3, subs[j], ps@[j], out@[j]) by {}
                assert forall|j: int| 0 <= j < k + 1 implies crate::tir::params::param_ok(t3, #[trigger] out@[j]) by {}
            }
            k = k + 1;
        }
        let ghost t4 = tir.nodes@;
        let new_params = tir.push_params(out);
        proof {
            assert(ps@.take(k as int) =~= ps@);
            let t5 = tir.nodes@;
            assert forall|j: int| 0 <= j < ps@.len() implies #[trigger] param_substituted(t5, subs[j], ps@[j], params_at(t5, new_params)[j]) by {
                lemma_param_parts(t0, params, j);
                lemma_param_substituted_stable(t4, t5, subs[j], ps@[j], params_at(t5, new_params)[j]);
            }
            lemma_sub_valid_stable(t4, t5, filtered);
            assert(subs.len() == ps@.len() + 1);
        }
        (new_params, filtered)
    }
}

} // verus!

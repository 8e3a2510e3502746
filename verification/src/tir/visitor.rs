//! Traversal of the TIR: mapping a tree to a new one (`fmap_*`) and
//! visiting every atom of a tree (`visit_*`).
//!
//! A traversal calls back on each atom (term, pattern or function
//! definition) it reaches, from the root down, in the order of the
//! children. The callback of a map either hands back a replacement, which
//! ends the traversal of that subtree, or lets the traversal copy the atom
//! with its children mapped. The callback of a visit either stops the
//! traversal of that subtree or lets it go on. A visitor that visits each
//! function definition once skips the definitions it has met before.

use std::collections::HashSet;
use std::ops::ControlFlow;

use vstd::prelude::*;

use crate::tir::store::{
    children, children_of, data_of, extends, has_kind, kind_of, lemma_tree_stable,
    lemma_tree_unfold, lemma_trees_stable, node_ok, rebuild, child_kinds, tag_of, tree, trees, wf, ArgsId, Atom,
    BlockStatementsId, FnDefId, NodeData, NodeKind, ParamsId, PatArgsId, PatId, PatListId, Term,
    TermId, TermListId, Tir, Tree,
};

verus! {

broadcast use vstd::std_specs::hash::group_hash_axioms;

/// The node of an atom.
pub open spec fn atom_index(a: Atom) -> usize {
    match a {
        Atom::Term(t) => t.0,
        Atom::FnDef(f) => f.0,
        Atom::Pat(p) => p.0,
    }
}

/// The atom is a node of the kind it claims.
pub open spec fn atom_ok(t: Seq<NodeData>, a: Atom) -> bool {
    match a {
        Atom::Term(x) => has_kind(t, x.0, NodeKind::Term),
        Atom::FnDef(x) => has_kind(t, x.0, NodeKind::FnDef),
        Atom::Pat(x) => has_kind(t, x.0, NodeKind::Pat),
    }
}

/// Whether a node kind is that of an atom.
pub open spec fn is_atom_kind(k: NodeKind) -> bool {
    k == NodeKind::Term || k == NodeKind::Pat || k == NodeKind::FnDef
}

/// Where mapping node `i` stops at once, the node it gives back without
/// adding to the store: the node itself for a function definition met
/// before, else the atom that the callback answers with a break (unless a
/// term is answered with a function definition, which needs a new node).
pub open spec fn fmap_root_break<M: AtomMapper>(m: M, t: Seq<NodeData>, i: usize, once: bool, vis: Set<usize>) -> Option<usize> {
    let k = kind_of(t[i as int]);
    if k == NodeKind::FnDef && once && vis.contains(i) {
        Some(i)
    } else if is_atom_kind(k) {
        match m.spec_map(t, atom_at(k, i)) {
            ControlFlow::Break(b) => if k == NodeKind::Term && b is FnDef {
                None
            } else {
                Some(atom_index(b))
            },
            ControlFlow::Continue(()) => None,
        }
    } else {
        None
    }
}

/// The atom for node `i` of an atom kind.
pub open spec fn atom_at(k: NodeKind, i: usize) -> Atom {
    if k == NodeKind::Term {
        Atom::Term(TermId(i))
    } else if k == NodeKind::Pat {
        Atom::Pat(PatId(i))
    } else {
        Atom::FnDef(FnDefId(i))
    }
}

/// A replacement handed back for an atom is an atom of the store that can
/// stand in its place: a term or function definition for a term (the
/// latter is then referred to by a new term), a pattern for a pattern, a
/// function definition for a function definition.
pub open spec fn break_ok(t: Seq<NodeData>, a: Atom, cf: ControlFlow<Atom>) -> bool {
    match cf {
        ControlFlow::Break(b) => {
            &&& atom_ok(t, b)
            &&& match a {
                Atom::Term(_) => !(b is Pat),
                Atom::Pat(_) => b is Pat,
                Atom::FnDef(_) => b is FnDef,
            }
        },
        ControlFlow::Continue(()) => true,
    }
}

/// The tree of the replacement `b` for atom `a`.
pub open spec fn break_tree(t: Seq<NodeData>, a: Atom, b: Atom) -> Tree {
    match (a, b) {
        (Atom::Term(_), Atom::FnDef(f)) => Tree::Node(5, seq![Seq::<int>::empty()], seq![tree(t, f.0)]),
        _ => tree(t, atom_index(b)),
    }
}

/// A callback of a map.
pub trait AtomMapper {
    /// The callback can run on the store `t`: the atoms it refers to are
    /// there.
    spec fn valid_in(&self, t: Seq<NodeData>) -> bool;

    /// What the callback hands back for `atom` in the store `t`.
    spec fn spec_map(&self, t: Seq<NodeData>, atom: Atom) -> ControlFlow<Atom>;

    /// Call back on an atom of the store.
    fn map(&self, tir: &Tir, atom: Atom) -> (r: ControlFlow<Atom>)
        requires
            tir.inv(),
            self.valid_in(tir.nodes@),
            atom_ok(tir.nodes@, atom),
        ensures
            r == self.spec_map(tir.nodes@, atom),
    ;

    /// The callback can still run as the store grows.
    proof fn lemma_valid_stable(&self, t1: Seq<NodeData>, t2: Seq<NodeData>)
        requires
            wf(t1),
            extends(t2, t1),
            self.valid_in(t1),
        ensures
            self.valid_in(t2),
    ;

    /// The outcome does not change as the store grows.
    proof fn lemma_map_stable(&self, t1: Seq<NodeData>, t2: Seq<NodeData>, atom: Atom)
        requires
            wf(t1),
            wf(t2),
            extends(t2, t1),
            self.valid_in(t1),
            atom_ok(t1, atom),
        ensures
            self.spec_map(t1, atom) == self.spec_map(t2, atom),
    ;

    /// A replacement can stand in place of the atom.
    proof fn lemma_break_ok(&self, t: Seq<NodeData>, atom: Atom)
        requires
            wf(t),
            self.valid_in(t),
            atom_ok(t, atom),
        ensures
            break_ok(t, atom, self.spec_map(t, atom)),
    ;
}

/// The tree that mapping node `i` of `t` produces, and the function
/// definitions met so far afterwards (`vis` before).
pub open spec fn fmap_spec<M: AtomMapper>(m: M, t: Seq<NodeData>, i: usize, once: bool, vis: Set<usize>) -> (Tree, Set<usize>)
    decreases i, 1int, 0int,
{
    if i >= t.len() {
        (Tree::Node(-1, Seq::empty(), Seq::empty()), vis)
    } else {
        let n = t[i as int];
        let k = kind_of(n);
        if k == NodeKind::FnDef && once && vis.contains(i) {
            (tree(t, i), vis)
        } else if is_atom_kind(k) {
            let vis1 = if k == NodeKind::FnDef && once { vis.insert(i) } else { vis };
            let a = atom_at(k, i);
            match m.spec_map(t, a) {
                ControlFlow::Break(b) => (break_tree(t, a, b), vis1),
                ControlFlow::Continue(()) => {
                    let r = fmap_kids(m, t, children(n), i, once, vis1);
                    (Tree::Node(tag_of(n), data_of(n), r.0), r.1)
                },
            }
        } else {
            let r = fmap_kids(m, t, children(n), i, once, vis);
            (Tree::Node(tag_of(n), data_of(n), r.0), r.1)
        }
    }
}

/// The trees that mapping the children `ks` of a node at `bound` produces,
/// from left to right.
pub open spec fn fmap_kids<M: AtomMapper>(m: M, t: Seq<NodeData>, ks: Seq<usize>, bound: usize, once: bool, vis: Set<usize>) -> (Seq<Tree>, Set<usize>)
    decreases bound, 0int, ks.len(),
{
    if ks.len() == 0 {
        (Seq::empty(), vis)
    } else {
        let pre = fmap_kids(m, t, ks.drop_last(), bound, once, vis);
        if ks.last() < bound {
            let last = fmap_spec(m, t, ks.last(), once, pre.1);
            (pre.0.push(last.0), last.1)
        } else {
            (pre.0.push(Tree::Node(-1, Seq::empty(), Seq::empty())), pre.1)
        }
    }
}

/// Mapping gives the same outcome on a store that extends `t1`.
pub proof fn lemma_fmap_stable<M: AtomMapper>(m: M, t1: Seq<NodeData>, t2: Seq<NodeData>, i: usize, once: bool, vis: Set<usize>)
    requires
        wf(t1),
        wf(t2),
        extends(t2, t1),
        m.valid_in(t1),
        i < t1.len(),
    ensures
        fmap_spec(m, t2, i, once, vis) == fmap_spec(m, t1, i, once, vis),
    decreases i, 1int, 0int,
{
    let n = t1[i as int];
    assert(t2[i as int] == n);
    assert(node_ok(t1, i as int, n));
    let k = kind_of(n);
    lemma_tree_stable(t1, t2, i);
    if k == NodeKind::FnDef && once && vis.contains(i) {
    } else if is_atom_kind(k) {
        let vis1 = if k == NodeKind::FnDef && once { vis.insert(i) } else { vis };
        let a = atom_at(k, i);
        m.lemma_map_stable(t1, t2, a);
        m.lemma_break_ok(t1, a);
        match m.spec_map(t1, a) {
            ControlFlow::Break(b) => {
                lemma_tree_stable(t1, t2, atom_index(b));
            },
            ControlFlow::Continue(()) => {
                lemma_fmap_kids_stable(m, t1, t2, children(n), i, once, vis1);
            },
        }
    } else {
        lemma_fmap_kids_stable(m, t1, t2, children(n), i, once, vis);
    }
}

/// Mapping children gives the same outcome on a store that extends `t1`.
pub proof fn lemma_fmap_kids_stable<M: AtomMapper>(m: M, t1: Seq<NodeData>, t2: Seq<NodeData>, ks: Seq<usize>, bound: usize, once: bool, vis: Set<usize>)
    requires
        wf(t1),
        wf(t2),
        extends(t2, t1),
        m.valid_in(t1),
        bound < t1.len(),
    ensures
        fmap_kids(m, t2, ks, bound, once, vis) == fmap_kids(m, t1, ks, bound, once, vis),
    decreases bound, 0int, ks.len(),
{
    if ks.len() > 0 {
        lemma_fmap_kids_stable(m, t1, t2, ks.drop_last(), bound, once, vis);
        let pre = fmap_kids(m, t1, ks.drop_last(), bound, once, vis);
        if ks.last() < bound {
            lemma_fmap_stable(m, t1, t2, ks.last(), once, pre.1);
        }
    }
}

/// A callback of a visit, with its own state.
pub trait AtomVisitor: Sized {
    /// The state after calling back on `atom` in the store `t`, and whether
    /// to go on into its subtree.
    spec fn spec_step(self, t: Seq<NodeData>, atom: Atom) -> (Self, ControlFlow<()>);

    /// The outcome does not change as the store grows.
    proof fn lemma_step_stable(self, t1: Seq<NodeData>, t2: Seq<NodeData>, atom: Atom)
        requires
            wf(t1),
            extends(t2, t1),
            atom_ok(t1, atom),
        ensures
            self.spec_step(t1, atom) == self.spec_step(t2, atom),
    ;

    /// Call back on an atom of the store.
    fn step(&mut self, tir: &Tir, atom: Atom) -> (r: ControlFlow<()>)
        requires
            tir.inv(),
            atom_ok(tir.nodes@, atom),
        ensures
            (*final(self), r) == old(self).spec_step(tir.nodes@, atom),
    ;
}

/// The state of the callback after visiting node `i` of `t`, and the
/// function definitions met so far afterwards.
pub open spec fn visit_spec<V: AtomVisitor>(v: V, t: Seq<NodeData>, i: usize, once: bool, vis: Set<usize>) -> (V, Set<usize>)
    decreases i, 1int, 0int,
{
    if i >= t.len() {
        (v, vis)
    } else {
        let n = t[i as int];
        let k = kind_of(n);
        if k == NodeKind::FnDef && once && vis.contains(i) {
            (v, vis)
        } else if is_atom_kind(k) {
            let vis1 = if k == NodeKind::FnDef && once { vis.insert(i) } else { vis };
            let s = v.spec_step(t, atom_at(k, i));
            match s.1 {
                ControlFlow::Break(()) => (s.0, vis1),
                ControlFlow::Continue(()) => visit_kids(s.0, t, children(n), i, once, vis1),
            }
        } else {
            visit_kids(v, t, children(n), i, once, vis)
        }
    }
}

/// The state of the callback after visiting the children `ks` of a node at
/// `bound`, from left to right.
pub open spec fn visit_kids<V: AtomVisitor>(v: V, t: Seq<NodeData>, ks: Seq<usize>, bound: usize, once: bool, vis: Set<usize>) -> (V, Set<usize>)
    decreases bound, 0int, ks.len(),
{
    if ks.len() == 0 {
        (v, vis)
    } else {
        let pre = visit_kids(v, t, ks.drop_last(), bound, once, vis);
        if ks.last() < bound {
            visit_spec(pre.0, t, ks.last(), once, pre.1)
        } else {
            pre
        }
    }
}

/// Visiting gives the same outcome on a store that extends `t1`.
pub proof fn lemma_visit_stable<V: AtomVisitor>(v: V, t1: Seq<NodeData>, t2: Seq<NodeData>, i: usize, once: bool, vis: Set<usize>)
    requires
        wf(t1),
        extends(t2, t1),
        i < t1.len(),
    ensures
        visit_spec(v, t2, i, once, vis) == visit_spec(v, t1, i, once, vis),
    decreases i, 1int, 0int,
{
    let n = t1[i as int];
    assert(t2[i as int] == n);
    assert(node_ok(t1, i as int, n));
    let k = kind_of(n);
    if k == NodeKind::FnDef && once && vis.contains(i) {
    } else if is_atom_kind(k) {
        let vis1 = if k == NodeKind::FnDef && once { vis.insert(i) } else { vis };
        let a = atom_at(k, i);
        v.lemma_step_stable(t1, t2, a);
        let s = v.spec_step(t1, a);
        match s.1 {
            ControlFlow::Break(()) => {},
            ControlFlow::Continue(()) => {
                lemma_visit_kids_stable(s.0, t1, t2, children(n), i, once, vis1);
            },
        }
    } else {
        lemma_visit_kids_stable(v, t1, t2, children(n), i, once, vis);
    }
}

/// Visiting children gives the same outcome on a store that extends `t1`.
pub proof fn lemma_visit_kids_stable<V: AtomVisitor>(v: V, t1: Seq<NodeData>, t2: Seq<NodeData>, ks: Seq<usize>, bound: usize, once: bool, vis: Set<usize>)
    requires
        wf(t1),
        extends(t2, t1),
        bound < t1.len(),
    ensures
        visit_kids(v, t2, ks, bound, once, vis) == visit_kids(v, t1, ks, bound, once, vis),
    decreases bound, 0int, ks.len(),
{
    if ks.len() > 0 {
        lemma_visit_kids_stable(v, t1, t2, ks.drop_last(), bound, once, vis);
        let pre = visit_kids(v, t1, ks.drop_last(), bound, once, vis);
        if ks.last() < bound {
            lemma_visit_stable(pre.0, t1, t2, ks.last(), once, pre.1);
        }
    }
}

/// Visiting only adds to the function definitions met.
pub proof fn lemma_visit_grows<V: AtomVisitor>(v: V, t: Seq<NodeData>, i: usize, once: bool, vis: Set<usize>)
    ensures
        vis.subset_of(visit_spec(v, t, i, once, vis).1),
    decreases i, 1int, 0int,
{
    if i < t.len() {
        let n = t[i as int];
        let k = kind_of(n);
        if k == NodeKind::FnDef && once && vis.contains(i) {
        } else if is_atom_kind(k) {
            let vis1 = if k == NodeKind::FnDef && once { vis.insert(i) } else { vis };
            let s = v.spec_step(t, atom_at(k, i));
            if s.1 is Continue {
                lemma_visit_kids_grow(s.0, t, children(n), i, once, vis1);
            }
        } else {
            lemma_visit_kids_grow(v, t, children(n), i, once, vis);
        }
    }
}

/// Visiting children only adds to the function definitions met.
pub proof fn lemma_visit_kids_grow<V: AtomVisitor>(v: V, t: Seq<NodeData>, ks: Seq<usize>, bound: usize, once: bool, vis: Set<usize>)
    ensures
        vis.subset_of(visit_kids(v, t, ks, bound, once, vis).1),
    decreases bound, 0int, ks.len(),
{
    if ks.len() > 0 {
        lemma_visit_kids_grow(v, t, ks.drop_last(), bound, once, vis);
        let pre = visit_kids(v, t, ks.drop_last(), bound, once, vis);
        if ks.last() < bound {
            lemma_visit_grows(pre.0, t, ks.last(), once, pre.1);
        }
    }
}

/// When function definitions are visited once, a function definition that
/// was visited is not visited again: a second visit calls back nothing and
/// leaves the definitions met as they are.
pub proof fn lemma_fn_def_visited_once<V: AtomVisitor, W: AtomVisitor>(v: V, w: W, t: Seq<NodeData>, i: usize, vis: Set<usize>)
    requires
        i < t.len(),
        kind_of(t[i as int]) == NodeKind::FnDef,
    ensures
        visit_spec(v, t, i, true, vis).1.contains(i),
        visit_spec(w, t, i, true, visit_spec(v, t, i, true, vis).1) == (w, visit_spec(v, t, i, true, vis).1),
{
    lemma_visit_grows(v, t, i, true, vis);
    if !vis.contains(i) {
        let n = t[i as int];
        let vis1 = vis.insert(i);
        let s = v.spec_step(t, atom_at(NodeKind::FnDef, i));
        if s.1 is Continue {
            lemma_visit_kids_grow(s.0, t, children(n), i, true, vis1);
        }
    }
}

/// Contains the state of traversals: whether function definitions are
/// traversed once, and those met so far.
pub struct Visitor {
    pub visited: HashSet<usize>,
    pub visit_fns_once: bool,
}

impl Visitor {
    /// Create a new visitor that visits each function definition once.
    pub fn new() -> (r: Self)
        ensures
            r.visited@ == Set::<usize>::empty(),
            r.visit_fns_once,
    {
        Visitor { visited: HashSet::new(), visit_fns_once: true }
    }

    /// Set whether each function definition is visited once.
    pub fn set_visit_fns_once(&mut self, visit_fns_once: bool)
        ensures
            final(self).visit_fns_once == visit_fns_once,
            final(self).visited@ == old(self).visited@,
    {
        self.visit_fns_once = visit_fns_once;
    }

    /// Map node `i`, returning the node of the result.
    pub fn fmap_node<M: AtomMapper>(&mut self, tir: &mut Tir, i: usize, m: &M) -> (r: usize)
        requires
            old(tir).inv(),
            m.valid_in(old(tir).nodes@),
            i < old(tir).nodes@.len(),
        ensures
            final(tir).inv(),
            extends(final(tir).nodes@, old(tir).nodes@),
            final(tir).symbols == old(tir).symbols,
            r < final(tir).nodes@.len(),
            kind_of(final(tir).nodes@[r as int]) == kind_of(old(tir).nodes@[i as int]),
            final(self).visit_fns_once == old(self).visit_fns_once,
            (tree(final(tir).nodes@, r), final(self).visited@) == fmap_spec(
                *m,
                old(tir).nodes@,
                i,
                old(self).visit_fns_once,
                old(self).visited@,
            ),
            fmap_root_break(*m, old(tir).nodes@, i, old(self).visit_fns_once, old(self).visited@) matches Some(j)
                ==> r == j && final(tir).nodes@ == old(tir).nodes@,
        decreases i,
    {
        let ghost t0 = tir.nodes@;
        let ghost vis0 = self.visited@;
        let ghost n = t0[i as int];
        let k = match tir.node(i) {
            NodeData::Term(_) => NodeKind::Term,
            NodeData::Pat(_) => NodeKind::Pat,
            NodeData::FnDef(_) => NodeKind::FnDef,
            _ => NodeKind::Args,
        };
        proof {
            assert(node_ok(t0, i as int, n));
        }
        let is_atom = match k {
            NodeKind::Term | NodeKind::Pat | NodeKind::FnDef => true,
            _ => false,
        };
        let is_fn = match k {
            NodeKind::FnDef => true,
            _ => false,
        };
        if is_fn && self.visit_fns_once {
            if self.visited.contains(&i) {
                return i;
            }
            self.visited.insert(i);
        }
        let ghost vis1 = self.visited@;
        if is_atom {
            let a = if k == NodeKind::Term {
                Atom::Term(TermId(i))
            } else if k == NodeKind::Pat {
                Atom::Pat(PatId(i))
            } else {
                Atom::FnDef(FnDefId(i))
            };
            assert(a == atom_at(kind_of(n), i));
            let cf = m.map(&*tir, a);
            proof {
                m.lemma_break_ok(t0, a);
            }
            match cf {
                ControlFlow::Break(b) => {
                    match (a, b) {
                        (Atom::Term(_), Atom::FnDef(f)) => {
                            let ghost t1 = tir.nodes@;
                            let r = tir.push_node(NodeData::Term(Term::Fn(f)));
                            proof {
                                lemma_tree_unfold(tir.nodes@, r);
                                lemma_tree_stable(t1, tir.nodes@, f.0);
                                assert(trees(tir.nodes@, children(NodeData::Term(Term::Fn(f)))) =~= seq![tree(t0, f.0)]);
                            }
                            return r;
                        },
                        (_, Atom::Term(x)) => {
                            return x.0;
                        },
                        (_, Atom::Pat(x)) => {
                            return x.0;
                        },
                        (_, Atom::FnDef(x)) => {
                            return x.0;
                        },
                    }
                },
                ControlFlow::Continue(()) => {},
            }
        }
        let kids = children_of(tir.node(i));
        let mut new_kids: Vec<usize> = Vec::new();
        let mut j: usize = 0;
        while j < kids.len()
            invariant
                wf(t0),
                m.valid_in(t0),
                m.valid_in(tir.nodes@),
                i < t0.len(),
                n == t0[i as int],
                node_ok(t0, i as int, n),
                kids@ == children(n),
                tir.inv(),
                extends(tir.nodes@, t0),
                tir.symbols == old(tir).symbols,
                t0 == old(tir).nodes@,
                self.visit_fns_once == old(self).visit_fns_once,
                j <= kids@.len(),
                new_kids@.len() == j,
                forall|q: int|
                    0 <= q < j ==> (#[trigger] new_kids@[q]) < tir.nodes@.len() && kind_of(
                        tir.nodes@[new_kids@[q] as int],
                    ) == kind_of(t0[kids@[q] as int]),
                (trees(tir.nodes@, new_kids@), self.visited@) == fmap_kids(
                    *m,
                    t0,
                    kids@.take(j as int),
                    i,
                    old(self).visit_fns_once,
                    vis1,
                ),
            decreases kids@.len() - j,
        {
            let c = kids[j];
            assert(c < i);
            let ghost t_before = tir.nodes@;
            let ghost vis_before = self.visited@;
            let ghost prev = new_kids@;
            let nc = self.fmap_node(tir, c, m);
            new_kids.push(nc);
            proof {
                m.lemma_valid_stable(t_before, tir.nodes@);
                lemma_fmap_stable(*m, t0, t_before, c, old(self).visit_fns_once, vis_before);
                lemma_trees_stable(t_before, tir.nodes@, prev);
                assert(kids@.take(j + 1).drop_last() =~= kids@.take(j as int));
                assert(kids@.take(j + 1).last() == c);
                assert(new_kids@.drop_last() =~= prev);
                assert(trees(tir.nodes@, new_kids@) =~= trees(tir.nodes@, prev).push(tree(tir.nodes@, nc)));
                assert forall|q: int|
                    0 <= q < j + 1 implies (#[trigger] new_kids@[q]) < tir.nodes@.len() && kind_of(
                        tir.nodes@[new_kids@[q] as int],
                    ) == kind_of(t0[kids@[q] as int]) by {
                    if q < j {
                        assert(new_kids@[q] == prev[q]);
                    }
                }
            }
            j = j + 1;
        }
        proof {
            assert(kids@.take(j as int) =~= kids@);
        }
        let nn = rebuild(tir.node(i), &new_kids);
        proof {
            assert forall|q: int| 0 <= q < children(nn).len() implies {
                &&& (#[trigger] children(nn)[q]) < tir.nodes@.len()
                &&& kind_of(tir.nodes@[children(nn)[q] as int]) == child_kinds(nn)[q]
            } by {
                assert(children(nn)[q] == new_kids@[q]);
            }
        }
        let ghost t_last = tir.nodes@;
        let r = tir.push_node(nn);
        proof {
            lemma_tree_unfold(tir.nodes@, r);
            lemma_trees_stable(t_last, tir.nodes@, new_kids@);
        }
        r
    }

    /// Visit node `i` with the callback `f`.
    pub fn visit_node<V: AtomVisitor>(&mut self, tir: &Tir, i: usize, f: &mut V)
        requires
            tir.inv(),
            i < tir.nodes@.len(),
        ensures
            final(self).visit_fns_once == old(self).visit_fns_once,
            (*final(f), final(self).visited@) == visit_spec(
                *old(f),
                tir.nodes@,
                i,
                old(self).visit_fns_once,
                old(self).visited@,
            ),
        decreases i,
    {
        let ghost t0 = tir.nodes@;
        let ghost n = t0[i as int];
        let k = match tir.node(i) {
            NodeData::Term(_) => NodeKind::Term,
            NodeData::Pat(_) => NodeKind::Pat,
            NodeData::FnDef(_) => NodeKind::FnDef,
            _ => NodeKind::Args,
        };
        proof {
            assert(node_ok(t0, i as int, n));
        }
        let is_atom = match k {
            NodeKind::Term | NodeKind::Pat | NodeKind::FnDef => true,
            _ => false,
        };
        let is_fn = match k {
            NodeKind::FnDef => true,
            _ => false,
        };
        if is_fn && self.visit_fns_once {
            if self.visited.contains(&i) {
                return ;
            }
            self.visited.insert(i);
        }
        let ghost vis1 = self.visited@;
        if is_atom {
            let a = if k == NodeKind::Term {
                Atom::Term(TermId(i))
            } else if k == NodeKind::Pat {
                Atom::Pat(PatId(i))
            } else {
                Atom::FnDef(FnDefId(i))
            };
            assert(a == atom_at(kind_of(n), i));
            let cf = f.step(tir, a);
            match cf {
                ControlFlow::Break(()) => {
                    return ;
                },
                ControlFlow::Continue(()) => {},
            }
        }
        let ghost v1 = *f;
        let kids = children_of(tir.node(i));
        let mut j: usize = 0;
        while j < kids.len()
            invariant
                wf(t0),
                tir.nodes@ == t0,
                i < t0.len(),
                n == t0[i as int],
                node_ok(t0, i as int, n),
                kids@ == children(n),
                self.visit_fns_once == old(self).visit_fns_once,
                j <= kids@.len(),
                (*f, self.visited@) == visit_kids(v1, t0, kids@.take(j as int), i, old(self).visit_fns_once, vis1),
            decreases kids@.len() - j,
        {
            let c = kids[j];
            assert(c < i);
            self.visit_node(tir, c, f);
            proof {
                assert(kids@.take(j + 1).drop_last() =~= kids@.take(j as int));
                assert(kids@.take(j + 1).last() == c);
            }
            j = j + 1;
        }
        proof {
            assert(kids@.take(j as int) =~= kids@);
        }
    }

    /// Map a term with a callback that cannot fail, returning the result.
    pub fn map_term<M: AtomMapper>(&mut self, tir: &mut Tir, id: TermId, f: &M) -> (r: TermId)
        requires
            old(tir).inv(),
            f.valid_in(old(tir).nodes@),
            has_kind(old(tir).nodes@, id.0, NodeKind::Term),
        ensures
            final(tir).inv(),
            extends(final(tir).nodes@, old(tir).nodes@),
            final(tir).symbols == old(tir).symbols,
            has_kind(final(tir).nodes@, r.0, NodeKind::Term),
            final(self).visit_fns_once == old(self).visit_fns_once,
            (tree(final(tir).nodes@, r.0), final(self).visited@) == fmap_spec(
                *f,
                old(tir).nodes@,
                id.0,
                old(self).visit_fns_once,
                old(self).visited@,
            ),
            fmap_root_break(*f, old(tir).nodes@, id.0, old(self).visit_fns_once, old(self).visited@) matches Some(j)
                ==> r.0 == j && final(tir).nodes@ == old(tir).nodes@,
    {
        TermId(self.fmap_node(tir, id.0, f))
    }

    /// Map a pattern with the callback `f`, returning the result.
    pub fn fmap_pat<M: AtomMapper>(&mut self, tir: &mut Tir, id: PatId, f: &M) -> (r: PatId)
        requires
            old(tir).inv(),
            f.valid_in(old(tir).nodes@),
            has_kind(old(tir).nodes@, id.0, NodeKind::Pat),
        ensures
            final(tir).inv(),
            extends(final(tir).nodes@, old(tir).nodes@),
            final(tir).symbols == old(tir).symbols,
            has_kind(final(tir).nodes@, r.0, NodeKind::Pat),
            final(self).visit_fns_once == old(self).visit_fns_once,
            (tree(final(tir).nodes@, r.0), final(self).visited@) == fmap_spec(
                *f,
                old(tir).nodes@,
                id.0,
                old(self).visit_fns_once,
                old(self).visited@,
            ),
    {
        PatId(self.fmap_node(tir, id.0, f))
    }

    /// Map a sequence of block statements with the callback `f`, returning the result.
    pub fn fmap_block_statements<M: AtomMapper>(&mut self, tir: &mut Tir, id: BlockStatementsId, f: &M) -> (r: BlockStatementsId)
        requires
            old(tir).inv(),
            f.valid_in(old(tir).nodes@),
            has_kind(old(tir).nodes@, id.0, NodeKind::Statements),
        ensures
            final(tir).inv(),
            extends(final(tir).nodes@, old(tir).nodes@),
            final(tir).symbols == old(tir).symbols,
            has_kind(final(tir).nodes@, r.0, NodeKind::Statements),
            final(self).visit_fns_once == old(self).visit_fns_once,
            (tree(final(tir).nodes@, r.0), final(self).visited@) == fmap_spec(
                *f,
                old(tir).nodes@,
                id.0,
                old(self).visit_fns_once,
                old(self).visited@,
            ),
    {
        BlockStatementsId(self.fmap_node(tir, id.0, f))
    }

    /// Map a sequence of terms with the callback `f`, returning the result.
    pub fn fmap_term_list<M: AtomMapper>(&mut self, tir: &mut Tir, id: TermListId, f: &M) -> (r: TermListId)
        requires
            old(tir).inv(),
            f.valid_in(old(tir).nodes@),
            has_kind(old(tir).nodes@, id.0, NodeKind::TermList),
        ensures
            final(tir).inv(),
            extends(final(tir).nodes@, old(tir).nodes@),
            final(tir).symbols == old(tir).symbols,
            has_kind(final(tir).nodes@, r.0, NodeKind::TermList),
            final(self).visit_fns_once == old(self).visit_fns_once,
            (tree(final(tir).nodes@, r.0), final(self).visited@) == fmap_spec(
                *f,
                old(tir).nodes@,
                id.0,
                old(self).visit_fns_once,
                old(self).visited@,
            ),
    {
        TermListId(self.fmap_node(tir, id.0, f))
    }

    /// Map a sequence of patterns with the callback `f`, returning the result.
    pub fn fmap_pat_list<M: AtomMapper>(&mut self, tir: &mut Tir, id: PatListId, f: &M) -> (r: PatListId)
        requires
            old(tir).inv(),
            f.valid_in(old(tir).nodes@),
            has_kind(old(tir).nodes@, id.0, NodeKind::PatList),
        ensures
            final(tir).inv(),
            extends(final(tir).nodes@, old(tir).nodes@),
            final(tir).symbols == old(tir).symbols,
            has_kind(final(tir).nodes@, r.0, NodeKind::PatList),
            final(self).visit_fns_once == old(self).visit_fns_once,
            (tree(final(tir).nodes@, r.0), final(self).visited@) == fmap_spec(
                *f,
                old(tir).nodes@,
                id.0,
                old(self).visit_fns_once,
                old(self).visited@,
            ),
    {
        PatListId(self.fmap_node(tir, id.0, f))
    }

    /// Map a sequence of parameters with the callback `f`, returning the result.
    pub fn fmap_params<M: AtomMapper>(&mut self, tir: &mut Tir, id: ParamsId, f: &M) -> (r: ParamsId)
        requires
            old(tir).inv(),
            f.valid_in(old(tir).nodes@),
            has_kind(old(tir).nodes@, id.0, NodeKind::Params),
        ensures
            final(tir).inv(),
            extends(final(tir).nodes@, old(tir).nodes@),
            final(tir).symbols == old(tir).symbols,
            has_kind(final(tir).nodes@, r.0, NodeKind::Params),
            final(self).visit_fns_once == old(self).visit_fns_once,
            (tree(final(tir).nodes@, r.0), final(self).visited@) == fmap_spec(
                *f,
                old(tir).nodes@,
                id.0,
                old(self).visit_fns_once,
                old(self).visited@,
            ),
    {
        ParamsId(self.fmap_node(tir, id.0, f))
    }

    /// Map a sequence of arguments with the callback `f`, returning the result.
    pub fn fmap_args<M: AtomMapper>(&mut self, tir: &mut Tir, id: ArgsId, f: &M) -> (r: ArgsId)
        requires
            old(tir).inv(),
            f.valid_in(old(tir).nodes@),
            has_kind(old(tir).nodes@, id.0, NodeKind::Args),
        ensures
            final(tir).inv(),
            extends(final(tir).nodes@, old(tir).nodes@),
            final(tir).symbols == old(tir).symbols,
            has_kind(final(tir).nodes@, r.0, NodeKind::Args),
            final(self).visit_fns_once == old(self).visit_fns_once,
            (tree(final(tir).nodes@, r.0), final(self).visited@) == fmap_spec(
                *f,
                old(tir).nodes@,
                id.0,
                old(self).visit_fns_once,
                old(self).visited@,
            ),
    {
        ArgsId(self.fmap_node(tir, id.0, f))
    }

    /// Map a sequence of pattern arguments with the callback `f`, returning the result.
    pub fn fmap_pat_args<M: AtomMapper>(&mut self, tir: &mut Tir, id: PatArgsId, f: &M) -> (r: PatArgsId)
        requires
            old(tir).inv(),
            f.valid_in(old(tir).nodes@),
            has_kind(old(tir).nodes@, id.0, NodeKind::PatArgs),
        ensures
            final(tir).inv(),
            extends(final(tir).nodes@, old(tir).nodes@),
            final(tir).symbols == old(tir).symbols,
            has_kind(final(tir).nodes@, r.0, NodeKind::PatArgs),
            final(self).visit_fns_once == old(self).visit_fns_once,
            (tree(final(tir).nodes@, r.0), final(self).visited@) == fmap_spec(
                *f,
                old(tir).nodes@,
                id.0,
                old(self).visit_fns_once,
                old(self).visited@,
            ),
    {
        PatArgsId(self.fmap_node(tir, id.0, f))
    }

    /// Map a function definition with the callback `f`, returning the result.
    pub fn fmap_fn_def<M: AtomMapper>(&mut self, tir: &mut Tir, id: FnDefId, f: &M) -> (r: FnDefId)
        requires
            old(tir).inv(),
            f.valid_in(old(tir).nodes@),
            has_kind(old(tir).nodes@, id.0, NodeKind::FnDef),
        ensures
            final(tir).inv(),
            extends(final(tir).nodes@, old(tir).nodes@),
            final(tir).symbols == old(tir).symbols,
            has_kind(final(tir).nodes@, r.0, NodeKind::FnDef),
            final(self).visit_fns_once == old(self).visit_fns_once,
            (tree(final(tir).nodes@, r.0), final(self).visited@) == fmap_spec(
                *f,
                old(tir).nodes@,
                id.0,
                old(self).visit_fns_once,
                old(self).visited@,
            ),
    {
        FnDefId(self.fmap_node(tir, id.0, f))
    }

    /// Visit a term with a callback that cannot fail.
    pub fn walk_term<V: AtomVisitor>(&mut self, tir: &Tir, id: TermId, f: &mut V)
        requires
            tir.inv(),
            has_kind(tir.nodes@, id.0, NodeKind::Term),
        ensures
            final(self).visit_fns_once == old(self).visit_fns_once,
            (*final(f), final(self).visited@) == visit_spec(
                *old(f),
                tir.nodes@,
                id.0,
                old(self).visit_fns_once,
                old(self).visited@,
            ),
    {
        self.visit_node(tir, id.0, f)
    }

    /// Visit a pattern with the callback `f`.
    pub fn visit_pat<V: AtomVisitor>(&mut self, tir: &Tir, id: PatId, f: &mut V)
        requires
            tir.inv(),
            has_kind(tir.nodes@, id.0, NodeKind::Pat),
        ensures
            final(self).visit_fns_once == old(self).visit_fns_once,
            (*final(f), final(self).visited@) == visit_spec(
                *old(f),
                tir.nodes@,
                id.0,
                old(self).visit_fns_once,
                old(self).visited@,
            ),
    {
        self.visit_node(tir, id.0, f)
    }

    /// Visit a sequence of block statements with the callback `f`.
    pub fn visit_block_statements<V: AtomVisitor>(&mut self, tir: &Tir, id: BlockStatementsId, f: &mut V)
        requires
            tir.inv(),
            has_kind(tir.nodes@, id.0, NodeKind::Statements),
        ensures
            final(self).visit_fns_once == old(self).visit_fns_once,
            (*final(f), final(self).visited@) == visit_spec(
                *old(f),
                tir.nodes@,
                id.0,
                old(self).visit_fns_once,
                old(self).visited@,
            ),
    {
        self.visit_node(tir, id.0, f)
    }

    /// Visit a sequence of terms with the callback `f`.
    pub fn visit_term_list<V: AtomVisitor>(&mut self, tir: &Tir, id: TermListId, f: &mut V)
        requires
            tir.inv(),
            has_kind(tir.nodes@, id.0, NodeKind::TermList),
        ensures
            final(self).visit_fns_once == old(self).visit_fns_once,
            (*final(f), final(self).visited@) == visit_spec(
                *old(f),
                tir.nodes@,
                id.0,
                old(self).visit_fns_once,
                old(self).visited@,
            ),
    {
        self.visit_node(tir, id.0, f)
    }

    /// Visit a sequence of patterns with the callback `f`.
    pub fn visit_pat_list<V: AtomVisitor>(&mut self, tir: &Tir, id: PatListId, f: &mut V)
        requires
            tir.inv(),
            has_kind(tir.nodes@, id.0, NodeKind::PatList),
        ensures
            final(self).visit_fns_once == old(self).visit_fns_once,
            (*final(f), final(self).visited@) == visit_spec(
                *old(f),
                tir.nodes@,
                id.0,
                old(self).visit_fns_once,
                old(self).visited@,
            ),
    {
        self.visit_node(tir, id.0, f)
    }

    /// Visit a sequence of parameters with the callback `f`.
    pub fn visit_params<V: AtomVisitor>(&mut self, tir: &Tir, id: ParamsId, f: &mut V)
        requires
            tir.inv(),
            has_kind(tir.nodes@, id.0, NodeKind::Params),
        ensures
            final(self).visit_fns_once == old(self).visit_fns_once,
            (*final(f), final(self).visited@) == visit_spec(
                *old(f),
                tir.nodes@,
                id.0,
                old(self).visit_fns_once,
                old(self).visited@,
            ),
    {
        self.visit_node(tir, id.0, f)
    }

    /// Visit a sequence of arguments with the callback `f`.
    pub fn visit_args<V: AtomVisitor>(&mut self, tir: &Tir, id: ArgsId, f: &mut V)
        requires
            tir.inv(),
            has_kind(tir.nodes@, id.0, NodeKind::Args),
        ensures
            final(self).visit_fns_once == old(self).visit_fns_once,
            (*final(f), final(self).visited@) == visit_spec(
                *old(f),
                tir.nodes@,
                id.0,
                old(self).visit_fns_once,
                old(self).visited@,
            ),
    {
        self.visit_node(tir, id.0, f)
    }

    /// Visit a sequence of pattern arguments with the callback `f`.
    pub fn visit_pat_args<V: AtomVisitor>(&mut self, tir: &Tir, id: PatArgsId, f: &mut V)
        requires
            tir.inv(),
            has_kind(tir.nodes@, id.0, NodeKind::PatArgs),
        ensures
            final(self).visit_fns_once == old(self).visit_fns_once,
            (*final(f), final(self).visited@) == visit_spec(
                *old(f),
                tir.nodes@,
                id.0,
                old(self).visit_fns_once,
                old(self).visited@,
            ),
    {
        self.visit_node(tir, id.0, f)
    }

    /// Visit a function definition with the callback `f`.
    pub fn visit_fn_def<V: AtomVisitor>(&mut self, tir: &Tir, id: FnDefId, f: &mut V)
        requires
            tir.inv(),
            has_kind(tir.nodes@, id.0, NodeKind::FnDef),
        ensures
            final(self).visit_fns_once == old(self).visit_fns_once,
            (*final(f), final(self).visited@) == visit_spec(
                *old(f),
                tir.nodes@,
                id.0,
                old(self).visit_fns_once,
                old(self).visited@,
            ),
    {
        self.visit_node(tir, id.0, f)
    }

    /// Map an atom with the callback `f`, returning the resulting atom of
    /// the same kind.
    pub fn fmap_atom<M: AtomMapper>(&mut self, tir: &mut Tir, atom: Atom, f: &M) -> (r: Atom)
        requires
            old(tir).inv(),
            f.valid_in(old(tir).nodes@),
            atom_ok(old(tir).nodes@, atom),
        ensures
            final(tir).inv(),
            extends(final(tir).nodes@, old(tir).nodes@),
            final(tir).symbols == old(tir).symbols,
            atom_ok(final(tir).nodes@, r),
            r is Term <==> atom is Term,
            r is Pat <==> atom is Pat,
            r is FnDef <==> atom is FnDef,
            final(self).visit_fns_once == old(self).visit_fns_once,
            (tree(final(tir).nodes@, atom_index(r)), final(self).visited@) == fmap_spec(
                *f,
                old(tir).nodes@,
                atom_index(atom),
                old(self).visit_fns_once,
                old(self).visited@,
            ),
    {
        match atom {
            Atom::Term(t) => Atom::Term(self.map_term(tir, t, f)),
            Atom::FnDef(d) => Atom::FnDef(self.fmap_fn_def(tir, d, f)),
            Atom::Pat(p) => Atom::Pat(self.fmap_pat(tir, p, f)),
        }
    }

    /// Call back on the atom first: a replacement is returned as it is;
    /// otherwise the atom is mapped as [Visitor::fmap_atom] does.
    pub fn fmap_atom_non_preserving<M: AtomMapper>(&mut self, tir: &mut Tir, atom: Atom, f: &M) -> (r: Atom)
        requires
            old(tir).inv(),
            f.valid_in(old(tir).nodes@),
            atom_ok(old(tir).nodes@, atom),
        ensures
            final(tir).inv(),
            extends(final(tir).nodes@, old(tir).nodes@),
            final(tir).symbols == old(tir).symbols,
            atom_ok(final(tir).nodes@, r),
            match f.spec_map(old(tir).nodes@, atom) {
                ControlFlow::Break(b) => r == b && final(tir).nodes@ == old(tir).nodes@
                    && final(self).visited@ == old(self).visited@,
                ControlFlow::Continue(()) => (tree(final(tir).nodes@, atom_index(r)), final(self).visited@)
                    == fmap_spec(
                    *f,
                    old(tir).nodes@,
                    atom_index(atom),
                    old(self).visit_fns_once,
                    old(self).visited@,
                ),
            },
    {
        proof {
            f.lemma_break_ok(tir.nodes@, atom);
        }
        match f.map(&*tir, atom) {
            ControlFlow::Continue(()) => self.fmap_atom(tir, atom, f),
            ControlFlow::Break(b) => b,
        }
    }

    /// Visit an atom with the callback `f`.
    pub fn visit_atom<V: AtomVisitor>(&mut self, tir: &Tir, atom: Atom, f: &mut V)
        requires
            tir.inv(),
            atom_ok(tir.nodes@, atom),
        ensures
            final(self).visit_fns_once == old(self).visit_fns_once,
            (*final(f), final(self).visited@) == visit_spec(
                *old(f),
                tir.nodes@,
                atom_index(atom),
                old(self).visit_fns_once,
                old(self).visited@,
            ),
    {
        match atom {
            Atom::Term(t) => self.walk_term(tir, t, f),
            Atom::FnDef(d) => self.visit_fn_def(tir, d, f),
            Atom::Pat(p) => self.visit_pat(tir, p, f),
        }
    }
}

} // verus!

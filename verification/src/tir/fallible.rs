//! Traversals whose callback can fail: the first error that the callback
//! gives ends the traversal and is handed back.

use std::ops::ControlFlow;

use vstd::prelude::*;

use crate::tir::store::{
    children, children_of, data_of, extends, has_kind, kind_of, lemma_tree_stable, lemma_tree_unfold,
    lemma_trees_stable, node_ok, rebuild, child_kinds, tag_of, tree, trees, wf, Atom, FnDefId, NodeData, NodeKind,
    PatId, Term, TermId, Tir, Tree,
};
use crate::tir::visitor::{atom_at, atom_index, atom_ok, break_ok, break_tree, is_atom_kind, Visitor};

verus! {

broadcast use vstd::std_specs::hash::group_hash_axioms;

/// A callback of a map that can fail.
pub trait TryAtomMapper {
    /// What the callback fails with.
    type Error;

    /// The callback can run on the store `t`: the atoms it refers to are
    /// there.
    spec fn valid_in(&self, t: Seq<NodeData>) -> bool;

    /// What the callback gives for `atom` in the store `t`: an error, or a
    /// replacement, or leave to map the atom's children.
    spec fn spec_try_map(&self, t: Seq<NodeData>, atom: Atom) -> Result<ControlFlow<Atom>, Self::Error>;

    /// Call back on an atom of the store.
    fn try_map(&self, tir: &Tir, atom: Atom) -> (r: Result<ControlFlow<Atom>, Self::Error>)
        requires
            tir.inv(),
            self.valid_in(tir.nodes@),
            atom_ok(tir.nodes@, atom),
        ensures
            r == self.spec_try_map(tir.nodes@, atom),
    ;

    /// The callback can still run as the store grows.
    proof fn lemma_valid_stable(&self, t1: Seq<NodeData>, t2: Seq<NodeData>)
        requires
            wf(t1),
            extends(t2, t1),
            self.valid_in(t1),
        ensures
            self.valid_in(t2),
    ;

    /// The outcome does not change as the store grows.
    proof fn lemma_try_map_stable(&self, t1: Seq<NodeData>, t2: Seq<NodeData>, atom: Atom)
        requires
            wf(t1),
            wf(t2),
            extends(t2, t1),
            self.valid_in(t1),
            atom_ok(t1, atom),
        ensures
            self.spec_try_map(t1, atom) == self.spec_try_map(t2, atom),
    ;

    /// A replacement can stand in place of the atom.
    proof fn lemma_try_break_ok(&self, t: Seq<NodeData>, atom: Atom)
        requires
            wf(t),
            self.valid_in(t),
            atom_ok(t, atom),
        ensures
            self.spec_try_map(t, atom) matches Ok(cf) ==> break_ok(t, atom, cf),
    ;
}

/// The tree that mapping node `i` of `t` produces and the function
/// definitions met so far afterwards (`vis` before), or the first error of
/// the callback.
pub open spec fn try_fmap_spec<M: TryAtomMapper>(m: M, t: Seq<NodeData>, i: usize, once: bool, vis: Set<usize>) -> Result<(Tree, Set<usize>), M::Error>
    decreases i, 1int, 0int,
{
    if i >= t.len() {
        Ok((Tree::Node(-1, Seq::empty(), Seq::empty()), vis))
    } else {
        let n = t[i as int];
        let k = kind_of(n);
        if k == NodeKind::FnDef && once && vis.contains(i) {
            Ok((tree(t, i), vis))
        } else if is_atom_kind(k) {
            let vis1 = if k == NodeKind::FnDef && once { vis.insert(i) } else { vis };
            let a = atom_at(k, i);
            match m.spec_try_map(t, a) {
                Err(e) => Err(e),
                Ok(ControlFlow::Break(b)) => Ok((break_tree(t, a, b), vis1)),
                Ok(ControlFlow::Continue(())) => match try_fmap_kids(m, t, children(n), i, once, vis1) {
                    Ok(r) => Ok((Tree::Node(tag_of(n), data_of(n), r.0), r.1)),
                    Err(e) => Err(e),
                },
            }
        } else {
            match try_fmap_kids(m, t, children(n), i, once, vis) {
                Ok(r) => Ok((Tree::Node(tag_of(n), data_of(n), r.0), r.1)),
                Err(e) => Err(e),
            }
        }
    }
}

/// The trees that mapping the children `ks` of a node at `bound` produces,
/// from left to right, or the first error of the callback.
pub open spec fn try_fmap_kids<M: TryAtomMapper>(m: M, t: Seq<NodeData>, ks: Seq<usize>, bound: usize, once: bool, vis: Set<usize>) -> Result<(Seq<Tree>, Set<usize>), M::Error>
    decreases bound, 0int, ks.len(),
{
    if ks.len() == 0 {
        Ok((Seq::empty(), vis))
    } else {
        match try_fmap_kids(m, t, ks.drop_last(), bound, once, vis) {
            Err(e) => Err(e),
            Ok(pre) => if ks.last() < bound {
                match try_fmap_spec(m, t, ks.last(), once, pre.1) {
                    Ok(last) => Ok((pre.0.push(last.0), last.1)),
                    Err(e) => Err(e),
                }
            } else {
                Ok((pre.0.push(Tree::Node(-1, Seq::empty(), Seq::empty())), pre.1))
            },
        }
    }
}

/// Mapping gives the same outcome on a store that extends `t1`.
pub proof fn lemma_try_fmap_stable<M: TryAtomMapper>(m: M, t1: Seq<NodeData>, t2: Seq<NodeData>, i: usize, once: bool, vis: Set<usize>)
    requires
        wf(t1),
        wf(t2),
        extends(t2, t1),
        m.valid_in(t1),
        i < t1.len(),
    ensures
        try_fmap_spec(m, t2, i, once, vis) == try_fmap_spec(m, t1, i, once, vis),
    decreases i, 1int, 0int,
{
    let n = t1[i as int];
    assert(t2[i as int] == n);
    assert(node_ok(t1, i as int, n));
    let k = kind_of(n);
    lemma_tree_stable(t1, t2, i);
    if k == NodeKind::FnDef && once && vis.contains(i) {
    } else if is_atom_kind(k) {
        let vis1 = if k == NodeKind::FnDef && once { vis.insert(i) } else { vis };
        let a = atom_at(k, i);
        m.lemma_try_map_stable(t1, t2, a);
        m.lemma_try_break_ok(t1, a);
        match m.spec_try_map(t1, a) {
            Ok(ControlFlow::Break(b)) => {
                lemma_tree_stable(t1, t2, atom_index(b));
            },
            Ok(ControlFlow::Continue(())) => {
                lemma_try_fmap_kids_stable(m, t1, t2, children(n), i, once, vis1);
            },
            Err(_) => {},
        }
    } else {
        lemma_try_fmap_kids_stable(m, t1, t2, children(n), i, once, vis);
    }
}

/// Mapping children gives the same outcome on a store that extends `t1`.
pub proof fn lemma_try_fmap_kids_stable<M: TryAtomMapper>(m: M, t1: Seq<NodeData>, t2: Seq<NodeData>, ks: Seq<usize>, bound: usize, once: bool, vis: Set<usize>)
    requires
        wf(t1),
        wf(t2),
        extends(t2, t1),
        m.valid_in(t1),
        bound < t1.len(),
    ensures
        try_fmap_kids(m, t2, ks, bound, once, vis) == try_fmap_kids(m, t1, ks, bound, once, vis),
    decreases bound, 0int, ks.len(),
{
    if ks.len() > 0 {
        lemma_try_fmap_kids_stable(m, t1, t2, ks.drop_last(), bound, once, vis);
        if let Ok(pre) = try_fmap_kids(m, t1, ks.drop_last(), bound, once, vis) {
            if ks.last() < bound {
                lemma_try_fmap_stable(m, t1, t2, ks.last(), once, pre.1);
            }
        }
    }
}

/// Once mapping some first children fails, mapping more of them fails with
/// the same error.
pub proof fn lemma_try_fmap_kids_error_stays<M: TryAtomMapper>(m: M, t: Seq<NodeData>, ks: Seq<usize>, k: int, bound: usize, once: bool, vis: Set<usize>)
    requires
        0 <= k <= ks.len(),
        try_fmap_kids(m, t, ks.take(k), bound, once, vis) is Err,
    ensures
        try_fmap_kids(m, t, ks, bound, once, vis) == try_fmap_kids(m, t, ks.take(k), bound, once, vis),
    decreases ks.len(),
{
    if k == ks.len() {
        assert(ks.take(k) =~= ks);
    } else {
        assert(ks.drop_last().take(k) =~= ks.take(k));
        lemma_try_fmap_kids_error_stays(m, t, ks.drop_last(), k, bound, once, vis);
    }
}

/// A callback of a visit that can fail, with its own state.
pub trait TryAtomVisitor: Sized {
    /// What the callback fails with.
    type Error;

    /// The state after calling back on `atom` in the store `t`, and an
    /// error or whether to go on into its subtree.
    spec fn spec_try_step(self, t: Seq<NodeData>, atom: Atom) -> (Self, Result<ControlFlow<()>, Self::Error>);

    /// Call back on an atom of the store.
    fn try_step(&mut self, tir: &Tir, atom: Atom) -> (r: Result<ControlFlow<()>, Self::Error>)
        requires
            tir.inv(),
            atom_ok(tir.nodes@, atom),
        ensures
            (*final(self), r) == old(self).spec_try_step(tir.nodes@, atom),
    ;
}

/// The state of the callback after visiting node `i` of `t`, the function
/// definitions met so far, and the first error of the callback, if any:
/// the visit ends at that error.
pub open spec fn try_visit_spec<V: TryAtomVisitor>(v: V, t: Seq<NodeData>, i: usize, once: bool, vis: Set<usize>) -> (V, Set<usize>, Result<(), V::Error>)
    decreases i, 1int, 0int,
{
    if i >= t.len() {
        (v, vis, Ok(()))
    } else {
        let n = t[i as int];
        let k = kind_of(n);
        if k == NodeKind::FnDef && once && vis.contains(i) {
            (v, vis, Ok(()))
        } else if is_atom_kind(k) {
            let vis1 = if k == NodeKind::FnDef && once { vis.insert(i) } else { vis };
            let s = v.spec_try_step(t, atom_at(k, i));
            match s.1 {
                Err(e) => (s.0, vis1, Err(e)),
                Ok(ControlFlow::Break(())) => (s.0, vis1, Ok(())),
                Ok(ControlFlow::Continue(())) => try_visit_kids(s.0, t, children(n), i, once, vis1),
            }
        } else {
            try_visit_kids(v, t, children(n), i, once, vis)
        }
    }
}

/// The state of the callback after visiting the children `ks` of a node at
/// `bound`, from left to right, up to the first error.
pub open spec fn try_visit_kids<V: TryAtomVisitor>(v: V, t: Seq<NodeData>, ks: Seq<usize>, bound: usize, once: bool, vis: Set<usize>) -> (V, Set<usize>, Result<(), V::Error>)
    decreases bound, 0int, ks.len(),
{
    if ks.len() == 0 {
        (v, vis, Ok(()))
    } else {
        let pre = try_visit_kids(v, t, ks.drop_last(), bound, once, vis);
        if pre.2 is Err {
            pre
        } else if ks.last() < bound {
            try_visit_spec(pre.0, t, ks.last(), once, pre.1)
        } else {
            pre
        }
    }
}

/// Once visiting some first children fails, visiting more of them ends
/// at the same point.
pub proof fn lemma_try_visit_kids_error_stays<V: TryAtomVisitor>(v: V, t: Seq<NodeData>, ks: Seq<usize>, k: int, bound: usize, once: bool, vis: Set<usize>)
    requires
        0 <= k <= ks.len(),
        try_visit_kids(v, t, ks.take(k), bound, once, vis).2 is Err,
    ensures
        try_visit_kids(v, t, ks, bound, once, vis) == try_visit_kids(v, t, ks.take(k), bound, once, vis),
    decreases ks.len(),
{
    if k == ks.len() {
        assert(ks.take(k) =~= ks);
    } else {
        assert(ks.drop_last().take(k) =~= ks.take(k));
        lemma_try_visit_kids_error_stays(v, t, ks.drop_last(), k, bound, once, vis);
    }
}

/// A visit that counts the atoms it calls back on and fails at the first
/// hole, with the hole's term.
pub struct HoleCheck {
    pub seen: usize,
}

impl TryAtomVisitor for HoleCheck {
    type Error = TermId;

    open spec fn spec_try_step(self, t: Seq<NodeData>, atom: Atom) -> (Self, Result<ControlFlow<()>, TermId>) {
        let next = HoleCheck { seen: if self.seen < usize::MAX { (self.seen + 1) as usize } else { self.seen } };
        match atom {
            Atom::Term(x) => if t[x.0 as int] matches NodeData::Term(Term::Hole(_)) {
                (next, Err(x))
            } else {
                (next, Ok(ControlFlow::Continue(())))
            },
            _ => (next, Ok(ControlFlow::Continue(()))),
        }
    }

    fn try_step(&mut self, tir: &Tir, atom: Atom) -> (r: Result<ControlFlow<()>, TermId>) {
        if self.seen < usize::MAX {
            self.seen = self.seen + 1;
        }
        if let Atom::Term(x) = atom {
            if let NodeData::Term(Term::Hole(_)) = tir.node(x.0) {
                return Err(x);
            }
        }
        Ok(ControlFlow::Continue(()))
    }
}

impl Visitor {
    /// Map node `i` with a callback that can fail, returning the node of
    /// the result or the first error.
    pub fn try_fmap_node<M: TryAtomMapper>(&mut self, tir: &mut Tir, i: usize, m: &M) -> (r: Result<usize, M::Error>)
        requires
            old(tir).inv(),
            m.valid_in(old(tir).nodes@),
            i < old(tir).nodes@.len(),
        ensures
            final(tir).inv(),
            extends(final(tir).nodes@, old(tir).nodes@),
            final(tir).symbols == old(tir).symbols,
            final(self).visit_fns_once == old(self).visit_fns_once,
            match try_fmap_spec(*m, old(tir).nodes@, i, old(self).visit_fns_once, old(self).visited@) {
                Ok(p) => r matches Ok(x) && x < final(tir).nodes@.len() && kind_of(final(tir).nodes@[x as int])
                    == kind_of(old(tir).nodes@[i as int]) && tree(final(tir).nodes@, x) == p.0
                    && final(self).visited@ == p.1,
                Err(e) => r == Err::<usize, M::Error>(e),
            },
            ({
                let t = old(tir).nodes@;
                let k = kind_of(t[i as int]);
                is_atom_kind(k) && !(k == NodeKind::FnDef && old(self).visit_fns_once && old(self).visited@.contains(i))
                    ==> match m.spec_try_map(t, atom_at(k, i)) {
                    Err(_) => final(tir).nodes@ == t,
                    Ok(ControlFlow::Break(b)) => !(k == NodeKind::Term && b is FnDef) ==> r == Ok::<usize, M::Error>(
                        atom_index(b),
                    ) && final(tir).nodes@ == t,
                    Ok(ControlFlow::Continue(())) => true,
                }
            }),
        decreases i,
    {
        let ghost t0 = tir.nodes@;
        let ghost n = t0[i as int];
        let k = match tir.node(i) {
            NodeData::Term(_) => NodeKind::Term,
            NodeData::Pat(_) => NodeKind::Pat,
            NodeData::FnDef(_) => NodeKind::FnDef,
            _ => NodeKind::Args,
        };
        proof {
            assert(node_ok(t0, i as int, n));
        }
        let is_atom = match k {
            NodeKind::Term | NodeKind::Pat | NodeKind::FnDef => true,
            _ => false,
        };
        let is_fn = match k {
            NodeKind::FnDef => true,
            _ => false,
        };
        assert(is_atom == is_atom_kind(kind_of(n)));
        assert(is_atom ==> k == kind_of(n));
        assert(is_fn == (kind_of(n) == NodeKind::FnDef));
        if is_fn && self.visit_fns_once {
            if self.visited.contains(&i) {
                return Ok(i);
            }
            self.visited.insert(i);
        }
        let ghost vis1 = self.visited@;
        if is_atom {
            let a = if k == NodeKind::Term {
                Atom::Term(TermId(i))
            } else if k == NodeKind::Pat {
                Atom::Pat(PatId(i))
            } else {
                Atom::FnDef(FnDefId(i))
            };
            assert(a == atom_at(kind_of(n), i));
            let res = m.try_map(&*tir, a);
            proof {
                m.lemma_try_break_ok(t0, a);
                assert(res == m.spec_try_map(t0, a));
            }
            match res {
                Err(e) => {
                    return Err(e);
                },
                Ok(ControlFlow::Break(b)) => {
                    match (a, b) {
                        (Atom::Term(_), Atom::FnDef(f)) => {
                            let ghost t1 = tir.nodes@;
                            let r = tir.push_node(NodeData::Term(Term::Fn(f)));
                            proof {
                                lemma_tree_unfold(tir.nodes@, r);
                                lemma_tree_stable(t1, tir.nodes@, f.0);
                                assert(trees(tir.nodes@, children(NodeData::Term(Term::Fn(f)))) =~= seq![tree(t0, f.0)]);
                            }
                            return Ok(r);
                        },
                        (_, Atom::Term(x)) => {
                            return Ok(x.0);
                        },
                        (_, Atom::Pat(x)) => {
                            return Ok(x.0);
                        },
                        (_, Atom::FnDef(x)) => {
                            return Ok(x.0);
                        },
                    }
                },
                Ok(ControlFlow::Continue(())) => {
                    assert(m.spec_try_map(t0, atom_at(kind_of(n), i)) is Ok);
                },
            }
        }
        let kids = children_of(tir.node(i));
        let mut new_kids: Vec<usize> = Vec::new();
        let mut j: usize = 0;
        proof {
            assert(kids@.take(0) =~= Seq::<usize>::empty());
            assert(trees(tir.nodes@, new_kids@) =~= Seq::<Tree>::empty());
        }
        while j < kids.len()
            invariant
                wf(t0),
                m.valid_in(t0),
                m.valid_in(tir.nodes@),
                i < t0.len(),
                n == t0[i as int],
                node_ok(t0, i as int, n),
                kids@ == children(n),
                tir.inv(),
                extends(tir.nodes@, t0),
                tir.symbols == old(tir).symbols,
                t0 == old(tir).nodes@,
                self.visit_fns_once == old(self).visit_fns_once,
                j <= kids@.len(),
                new_kids@.len() == j,
                forall|q: int|
                    0 <= q < j ==> (#[trigger] new_kids@[q]) < tir.nodes@.len() && kind_of(
                        tir.nodes@[new_kids@[q] as int],
                    ) == kind_of(t0[kids@[q] as int]),
                !(kind_of(n) == NodeKind::FnDef && old(self).visit_fns_once && old(self).visited@.contains(i)),
                vis1 == (if kind_of(n) == NodeKind::FnDef && old(self).visit_fns_once {
                    old(self).visited@.insert(i)
                } else {
                    old(self).visited@
                }),
                is_atom_kind(kind_of(n)) ==> m.spec_try_map(t0, atom_at(kind_of(n), i)) matches Ok(ControlFlow::Continue(_)),
                try_fmap_kids(*m, t0, kids@.take(j as int), i, old(self).visit_fns_once, vis1) == Ok::<
                    (Seq<Tree>, Set<usize>),
                    M::Error,
                >((trees(tir.nodes@, new_kids@), self.visited@)),
            decreases kids@.len() - j,
        {
            let c = kids[j];
            assert(c < i);
            let ghost t_before = tir.nodes@;
            let ghost vis_before = self.visited@;
            let ghost prev = new_kids@;
            proof {
                lemma_try_fmap_stable(*m, t0, t_before, c, old(self).visit_fns_once, vis_before);
                assert(kids@.take(j + 1).drop_last() =~= kids@.take(j as int));
                assert(kids@.take(j + 1).last() == c);
            }
            let res = self.try_fmap_node(tir, c, m);
            match res {
                Err(e) => {
                    proof {
                        assert(try_fmap_kids(*m, t0, kids@.take(j + 1), i, old(self).visit_fns_once, vis1) == Err::<
                            (Seq<Tree>, Set<usize>),
                            M::Error,
                        >(e));
                        lemma_try_fmap_kids_error_stays(*m, t0, kids@, j + 1, i, old(self).visit_fns_once, vis1);
                    }
                    return Err(e);
                },
                Ok(nc) => {
                    new_kids.push(nc);
                    proof {
                        m.lemma_valid_stable(t_before, tir.nodes@);
                        lemma_trees_stable(t_before, tir.nodes@, prev);
                        assert(new_kids@.drop_last() =~= prev);
                        assert(trees(tir.nodes@, new_kids@) =~= trees(tir.nodes@, prev).push(tree(tir.nodes@, nc)));
                        assert forall|q: int|
                            0 <= q < j + 1 implies (#[trigger] new_kids@[q]) < tir.nodes@.len() && kind_of(
                                tir.nodes@[new_kids@[q] as int],
                            ) == kind_of(t0[kids@[q] as int]) by {
                            if q < j {
                                assert(new_kids@[q] == prev[q]);
                            }
                        }
                    }
                },
            }
            j = j + 1;
        }
        proof {
            assert(kids@.take(j as int) =~= kids@);
        }
        let nn = rebuild(tir.node(i), &new_kids);
        proof {
            assert forall|q: int| 0 <= q < children(nn).len() implies {
                &&& (#[trigger] children(nn)[q]) < tir.nodes@.len()
                &&& kind_of(tir.nodes@[children(nn)[q] as int]) == child_kinds(nn)[q]
            } by {
                assert(children(nn)[q] == new_kids@[q]);
            }
        }
        let ghost t_last = tir.nodes@;
        let r = tir.push_node(nn);
        proof {
            lemma_tree_unfold(tir.nodes@, r);
            lemma_trees_stable(t_last, tir.nodes@, new_kids@);
        }
        Ok(r)
    }

    /// Map a term with a callback that can fail: the result, or the first
    /// error of the callback, which ends the map. Where the callback fails
    /// on the term itself, or hands back a replacement term or pattern for
    /// it, the store is left as it was.
    pub fn fmap_term<M: TryAtomMapper>(&mut self, tir: &mut Tir, id: TermId, f: &M) -> (r: Result<TermId, M::Error>)
        requires
            old(tir).inv(),
            f.valid_in(old(tir).nodes@),
            has_kind(old(tir).nodes@, id.0, NodeKind::Term),
        ensures
            final(tir).inv(),
            extends(final(tir).nodes@, old(tir).nodes@),
            final(tir).symbols == old(tir).symbols,
            final(self).visit_fns_once == old(self).visit_fns_once,
            match try_fmap_spec(*f, old(tir).nodes@, id.0, old(self).visit_fns_once, old(self).visited@) {
                Ok(p) => r matches Ok(x) && has_kind(final(tir).nodes@, x.0, NodeKind::Term) && tree(
                    final(tir).nodes@,
                    x.0,
                ) == p.0 && final(self).visited@ == p.1,
                Err(e) => r == Err::<TermId, M::Error>(e),
            },
            f.spec_try_map(old(tir).nodes@, Atom::Term(id)) is Err ==> final(tir).nodes@ == old(tir).nodes@,
            match f.spec_try_map(old(tir).nodes@, Atom::Term(id)) {
                Ok(ControlFlow::Break(b)) => !(b is FnDef) ==> r == Ok::<TermId, M::Error>(TermId(atom_index(b)))
                    && final(tir).nodes@ == old(tir).nodes@,
                _ => true,
            },
    {
        proof {
            assert(atom_at(NodeKind::Term, id.0) == Atom::Term(id));
        }
        match self.try_fmap_node(tir, id.0, f) {
            Ok(x) => Ok(TermId(x)),
            Err(e) => Err(e),
        }
    }

    /// Visit node `i` with a callback that can fail, up to its first error,
    /// which is handed back.
    pub fn try_visit_node<V: TryAtomVisitor>(&mut self, tir: &Tir, i: usize, f: &mut V) -> (r: Result<(), V::Error>)
        requires
            tir.inv(),
            i < tir.nodes@.len(),
        ensures
            final(self).visit_fns_once == old(self).visit_fns_once,
            (*final(f), final(self).visited@, r) == try_visit_spec(
                *old(f),
                tir.nodes@,
                i,
                old(self).visit_fns_once,
                old(self).visited@,
            ),
        decreases i,
    {
        let ghost t0 = tir.nodes@;
        let ghost n = t0[i as int];
        let k = match tir.node(i) {
            NodeData::Term(_) => NodeKind::Term,
            NodeData::Pat(_) => NodeKind::Pat,
            NodeData::FnDef(_) => NodeKind::FnDef,
            _ => NodeKind::Args,
        };
        proof {
            assert(node_ok(t0, i as int, n));
        }
        let is_atom = match k {
            NodeKind::Term | NodeKind::Pat | NodeKind::FnDef => true,
            _ => false,
        };
        let is_fn = match k {
            NodeKind::FnDef => true,
            _ => false,
        };
        assert(is_atom == is_atom_kind(kind_of(n)));
        assert(is_atom ==> k == kind_of(n));
        assert(is_fn == (kind_of(n) == NodeKind::FnDef));
        if is_fn && self.visit_fns_once {
            if self.visited.contains(&i) {
                return Ok(());
            }
            self.visited.insert(i);
        }
        let ghost vis1 = self.visited@;
        if is_atom {
            let a = if k == NodeKind::Term {
                Atom::Term(TermId(i))
            } else if k == NodeKind::Pat {
                Atom::Pat(PatId(i))
            } else {
                Atom::FnDef(FnDefId(i))
            };
            assert(a == atom_at(kind_of(n), i));
            let ghost f0 = *f;
            let stepped = f.try_step(tir, a);
            proof {
                assert(f0 == *old(f));
                assert((*f, stepped) == f0.spec_try_step(t0, a));
            }
            match stepped {
                Err(e) => {
                    return Err(e);
                },
                Ok(ControlFlow::Break(())) => {
                    return Ok(());
                },
                Ok(ControlFlow::Continue(())) => {},
            }
        }
        let ghost v1 = *f;
        let kids = children_of(tir.node(i));
        let mut j: usize = 0;
        proof {
            assert(kids@.take(0) =~= Seq::<usize>::empty());
        }
        while j < kids.len()
            invariant
                wf(t0),
                tir.nodes@ == t0,
                i < t0.len(),
                n == t0[i as int],
                node_ok(t0, i as int, n),
                kids@ == children(n),
                self.visit_fns_once == old(self).visit_fns_once,
                j <= kids@.len(),
                !(kind_of(n) == NodeKind::FnDef && old(self).visit_fns_once && old(self).visited@.contains(i)),
                vis1 == (if kind_of(n) == NodeKind::FnDef && old(self).visit_fns_once {
                    old(self).visited@.insert(i)
                } else {
                    old(self).visited@
                }),
                is_atom_kind(kind_of(n)) ==> old(f).spec_try_step(t0, atom_at(kind_of(n), i)).0 == v1,
                is_atom_kind(kind_of(n)) ==> old(f).spec_try_step(t0, atom_at(kind_of(n), i)).1 matches Ok(
                    ControlFlow::Continue(_),
                ),
                !is_atom_kind(kind_of(n)) ==> v1 == *old(f),
                try_visit_kids(v1, t0, kids@.take(j as int), i, old(self).visit_fns_once, vis1).0 == *f,
                try_visit_kids(v1, t0, kids@.take(j as int), i, old(self).visit_fns_once, vis1).1 == self.visited@,
                try_visit_kids(v1, t0, kids@.take(j as int), i, old(self).visit_fns_once, vis1).2 is Ok,
            decreases kids@.len() - j,
        {
            let c = kids[j];
            assert(c < i);
            proof {
                assert(kids@.take(j + 1).drop_last() =~= kids@.take(j as int));
                assert(kids@.take(j + 1).last() == c);
            }
            let ghost f_before = *f;
            let ghost vis_before = self.visited@;
            let res = self.try_visit_node(tir, c, f);
            proof {
                assert(try_visit_kids(v1, t0, kids@.take(j + 1), i, old(self).visit_fns_once, vis1) == try_visit_spec(
                    f_before,
                    t0,
                    c,
                    old(self).visit_fns_once,
                    vis_before,
                ));
            }
            match res {
                Err(e) => {
                    proof {
                        lemma_try_visit_kids_error_stays(v1, t0, kids@, j + 1, i, old(self).visit_fns_once, vis1);
                    }
                    return Err(e);
                },
                Ok(()) => {},
            }
            j = j + 1;
        }
        proof {
            assert(kids@.take(j as int) =~= kids@);
            let x = try_visit_kids(v1, t0, kids@, i, old(self).visit_fns_once, vis1).2;
            if let Ok(u) = x {
                assert(u == ());
                assert(x == Ok::<(), V::Error>(()));
            }
        }
        Ok(())
    }

    /// Visit a term with a callback that can fail: the first error of the
    /// callback ends the visit and is handed back; the callback is not
    /// called again after it.
    pub fn visit_term<V: TryAtomVisitor>(&mut self, tir: &Tir, id: TermId, f: &mut V) -> (r: Result<(), V::Error>)
        requires
            tir.inv(),
            has_kind(tir.nodes@, id.0, NodeKind::Term),
        ensures
            final(self).visit_fns_once == old(self).visit_fns_once,
            (*final(f), final(self).visited@, r) == try_visit_spec(
                *old(f),
                tir.nodes@,
                id.0,
                old(self).visit_fns_once,
                old(self).visited@,
            ),
            old(f).spec_try_step(tir.nodes@, Atom::Term(id)).1 matches Err(e) ==> r == Err::<(), V::Error>(e)
                && *final(f) == old(f).spec_try_step(tir.nodes@, Atom::Term(id)).0,
            old(f).spec_try_step(tir.nodes@, Atom::Term(id)).1 matches Ok(ControlFlow::Break(())) ==> r == Ok::<
                (),
                V::Error,
            >(()) && *final(f) == old(f).spec_try_step(tir.nodes@, Atom::Term(id)).0,
    {
        proof {
            assert(atom_at(NodeKind::Term, id.0) == Atom::Term(id));
        }
        self.try_visit_node(tir, id.0, f)
    }
}

} // verus!

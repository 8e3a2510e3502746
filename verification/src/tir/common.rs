//! Creating terms and types that carry over the source locations and the
//! syntax nodes of the terms they stand for. Types are terms here: a type
//! is a term of one of the type variants, a variable or a hole.

use std::collections::HashMap;

use vstd::prelude::*;

use crate::ir::AstNodeId;
use crate::reporting::Span;
use crate::tir::store::{has_kind, node_ok, Atom, NodeData, NodeKind, SymbolData, SymbolId, Term, TermId, Tir, TyId};

verus! {

broadcast use vstd::std_specs::hash::group_hash_axioms;

/// What a location is recorded for: a node of the store or a symbol.
#[derive(Debug, Clone, Copy, PartialEq, Eq, Structural)]
pub enum LocationTarget {
    Node(usize),
    Symbol(SymbolId),
}

/// The source locations of nodes and symbols, and the syntax nodes that
/// terms, types, patterns and function definitions come from.
pub struct TirMeta {
    pub node_locations: HashMap<usize, Span>,
    pub symbol_locations: HashMap<usize, Span>,
    pub ast_terms: HashMap<usize, AstNodeId>,
    pub ast_tys: HashMap<usize, AstNodeId>,
    pub ast_pats: HashMap<usize, AstNodeId>,
    pub ast_fn_defs: HashMap<usize, AstNodeId>,
}

/// The entry of `k` in `m`, if any.
pub open spec fn entry<V>(m: Map<usize, V>, k: usize) -> Option<V> {
    if m.contains_key(k) {
        Some(m[k])
    } else {
        None
    }
}

/// `m` with `k` set to `v` when there is a `v`.
pub open spec fn set_if<V>(m: Map<usize, V>, k: usize, v: Option<V>) -> Map<usize, V> {
    match v {
        Some(x) => m.insert(k, x),
        None => m,
    }
}

/// A term of one of the type variants.
pub open spec fn is_type_term(t: Term) -> bool {
    t is TupleTy || t is FnTy || t is RefTy || t is DataTy || t is Universe
}

impl TirMeta {
    /// The location of a target, if it has one.
    pub open spec fn location_of(&self, target: LocationTarget) -> Option<Span> {
        match target {
            LocationTarget::Node(i) => entry(self.node_locations@, i),
            LocationTarget::Symbol(s) => entry(self.symbol_locations@, s.0),
        }
    }

    /// No locations and no syntax nodes.
    pub fn new() -> (r: Self)
        ensures
            r.node_locations@ == Map::<usize, Span>::empty(),
            r.symbol_locations@ == Map::<usize, Span>::empty(),
            r.ast_terms@ == Map::<usize, AstNodeId>::empty(),
            r.ast_tys@ == Map::<usize, AstNodeId>::empty(),
            r.ast_pats@ == Map::<usize, AstNodeId>::empty(),
            r.ast_fn_defs@ == Map::<usize, AstNodeId>::empty(),
    {
        TirMeta {
            node_locations: HashMap::new(),
            symbol_locations: HashMap::new(),
            ast_terms: HashMap::new(),
            ast_tys: HashMap::new(),
            ast_pats: HashMap::new(),
            ast_fn_defs: HashMap::new(),
        }
    }

    /// The location of a target, if it has one.
    pub fn get_location(&self, target: LocationTarget) -> (r: Option<Span>)
        ensures
            r == self.location_of(target),
    {
        match target {
            LocationTarget::Node(i) => match self.node_locations.get(&i) {
                Some(s) => Some(*s),
                None => None,
            },
            LocationTarget::Symbol(s) => match self.symbol_locations.get(&s.0) {
                Some(x) => Some(*x),
                None => None,
            },
        }
    }

    /// Record the location of a target.
    pub fn add_location_to_target(&mut self, target: LocationTarget, span: Span)
        ensures
            match target {
                LocationTarget::Node(i) => {
                    &&& final(self).node_locations@ == old(self).node_locations@.insert(i, span)
                    &&& final(self).symbol_locations@ == old(self).symbol_locations@
                },
                LocationTarget::Symbol(s) => {
                    &&& final(self).symbol_locations@ == old(self).symbol_locations@.insert(s.0, span)
                    &&& final(self).node_locations@ == old(self).node_locations@
                },
            },
            final(self).ast_terms@ == old(self).ast_terms@,
            final(self).ast_tys@ == old(self).ast_tys@,
            final(self).ast_pats@ == old(self).ast_pats@,
            final(self).ast_fn_defs@ == old(self).ast_fn_defs@,
    {
        match target {
            LocationTarget::Node(i) => {
                self.node_locations.insert(i, span);
            },
            LocationTarget::Symbol(s) => {
                self.symbol_locations.insert(s.0, span);
            },
        }
    }

    /// Give node `dst` the location of node `src`, if it has one.
    pub fn copy_location(&mut self, src: usize, dst: usize)
        ensures
            final(self).node_locations@ == set_if(old(self).node_locations@, dst, entry(old(self).node_locations@, src)),
            final(self).symbol_locations@ == old(self).symbol_locations@,
            final(self).ast_terms@ == old(self).ast_terms@,
            final(self).ast_tys@ == old(self).ast_tys@,
            final(self).ast_pats@ == old(self).ast_pats@,
            final(self).ast_fn_defs@ == old(self).ast_fn_defs@,
    {
        match self.get_location(LocationTarget::Node(src)) {
            Some(s) => self.add_location_to_target(LocationTarget::Node(dst), s),
            None => {},
        }
    }
}

/// The syntax node of a node, in the given map, if any.
fn ast_entry(m: &HashMap<usize, AstNodeId>, i: usize) -> (r: Option<AstNodeId>)
    ensures
        r == entry(m@, i),
{
    match m.get(&i) {
        Some(a) => Some(*a),
        None => None,
    }
}

/// The location that a new type takes: that of its variable.
pub open spec fn new_ty_location(meta: &TirMeta, ty: Term) -> Option<Span> {
    match ty {
        Term::Var(v) => meta.location_of(LocationTarget::Symbol(v)),
        _ => None,
    }
}

/// The location and syntax node that a new term takes: those of the
/// function it refers to, or the location of its variable.
pub open spec fn new_term_origin(meta: &TirMeta, term: Term) -> (Option<AstNodeId>, Option<Span>) {
    match term {
        Term::Fn(f) => (entry(meta.ast_fn_defs@, f.0), meta.location_of(LocationTarget::Node(f.0))),
        Term::Var(v) => (None, meta.location_of(LocationTarget::Symbol(v))),
        _ => (None, None),
    }
}

/// The metadata are unchanged but for the node locations.
pub open spec fn only_locations_changed(m2: &TirMeta, m1: &TirMeta) -> bool {
    &&& m2.symbol_locations@ == m1.symbol_locations@
    &&& m2.ast_terms@ == m1.ast_terms@
    &&& m2.ast_tys@ == m1.ast_tys@
    &&& m2.ast_pats@ == m1.ast_pats@
    &&& m2.ast_fn_defs@ == m1.ast_fn_defs@
}

/// Create a new type, located at its variable, if it is one.
pub fn new_ty(tir: &mut Tir, meta: &mut TirMeta, ty: Term) -> (r: TyId)
    requires
        old(tir).inv(),
        node_ok(old(tir).nodes@, old(tir).nodes@.len() as int, NodeData::Term(ty)),
    ensures
        final(tir).inv(),
        r.0 == old(tir).nodes@.len(),
        final(tir).nodes@ == old(tir).nodes@.push(NodeData::Term(ty)),
        final(tir).symbols == old(tir).symbols,
        final(meta).node_locations@ == set_if(old(meta).node_locations@, r.0, new_ty_location(&*old(meta), ty)),
        only_locations_changed(&*final(meta), &*old(meta)),
{
    let location = match ty {
        Term::Var(v) => meta.get_location(LocationTarget::Symbol(v)),
        _ => None,
    };
    let created = tir.new_term(ty);
    match location {
        Some(l) => meta.add_location_to_target(LocationTarget::Node(created.0), l),
        None => {},
    }
    created
}

/// Create a new term, with the location and syntax node of the function
/// it refers to, or the location of its variable.
pub fn new_term(tir: &mut Tir, meta: &mut TirMeta, term: Term) -> (r: TermId)
    requires
        old(tir).inv(),
        node_ok(old(tir).nodes@, old(tir).nodes@.len() as int, NodeData::Term(term)),
    ensures
        final(tir).inv(),
        r.0 == old(tir).nodes@.len(),
        final(tir).nodes@ == old(tir).nodes@.push(NodeData::Term(term)),
        final(tir).symbols == old(tir).symbols,
        final(meta).node_locations@ == set_if(old(meta).node_locations@, r.0, new_term_origin(&*old(meta), term).1),
        final(meta).ast_terms@ == set_if(old(meta).ast_terms@, r.0, new_term_origin(&*old(meta), term).0),
        final(meta).symbol_locations@ == old(meta).symbol_locations@,
        final(meta).ast_tys@ == old(meta).ast_tys@,
        final(meta).ast_pats@ == old(meta).ast_pats@,
        final(meta).ast_fn_defs@ == old(meta).ast_fn_defs@,
{
    let (ast_info, location) = match term {
        Term::Fn(f) => (ast_entry(&meta.ast_fn_defs, f.0), meta.get_location(LocationTarget::Node(f.0))),
        Term::Var(v) => (None, meta.get_location(LocationTarget::Symbol(v))),
        _ => (None, None),
    };
    let created = tir.new_term(term);
    match location {
        Some(l) => meta.add_location_to_target(LocationTarget::Node(created.0), l),
        None => {},
    }
    match ast_info {
        Some(a) => {
            meta.ast_terms.insert(created.0, a);
        },
        None => {},
    }
    created
}

/// The type `ty_of_ty` for typing the type `ty`: it takes the location
/// and the syntax node of `ty`.
pub fn new_expected_ty_of_ty(meta: &mut TirMeta, ty: TyId, ty_of_ty: TyId) -> (r: TyId)
    ensures
        r == ty_of_ty,
        final(meta).node_locations@ == set_if(old(meta).node_locations@, ty_of_ty.0, entry(old(meta).node_locations@, ty.0)),
        final(meta).ast_tys@ == set_if(old(meta).ast_tys@, ty_of_ty.0, entry(old(meta).ast_tys@, ty.0)),
        final(meta).symbol_locations@ == old(meta).symbol_locations@,
        final(meta).ast_terms@ == old(meta).ast_terms@,
        final(meta).ast_pats@ == old(meta).ast_pats@,
        final(meta).ast_fn_defs@ == old(meta).ast_fn_defs@,
{
    meta.copy_location(ty.0, ty_of_ty.0);
    match ast_entry(&meta.ast_tys, ty.0) {
        Some(a) => {
            meta.ast_tys.insert(ty_of_ty.0, a);
        },
        None => {},
    }
    ty_of_ty
}

/// Create a new term that takes the location and the syntax node of
/// `source`, where it has them.
pub fn new_term_from(tir: &mut Tir, meta: &mut TirMeta, source: TermId, term: Term) -> (r: TermId)
    requires
        old(tir).inv(),
        node_ok(old(tir).nodes@, old(tir).nodes@.len() as int, NodeData::Term(term)),
    ensures
        final(tir).inv(),
        r.0 == old(tir).nodes@.len(),
        final(tir).nodes@ == old(tir).nodes@.push(NodeData::Term(term)),
        final(tir).symbols == old(tir).symbols,
        ({
            let origin = new_term_origin(&*old(meta), term);
            let locs = set_if(old(meta).node_locations@, r.0, origin.1);
            let asts = set_if(old(meta).ast_terms@, r.0, origin.0);
            &&& final(meta).node_locations@ == set_if(locs, r.0, entry(locs, source.0))
            &&& final(meta).ast_terms@ == set_if(asts, r.0, entry(asts, source.0))
        }),
        final(meta).symbol_locations@ == old(meta).symbol_locations@,
        final(meta).ast_tys@ == old(meta).ast_tys@,
        final(meta).ast_pats@ == old(meta).ast_pats@,
        final(meta).ast_fn_defs@ == old(meta).ast_fn_defs@,
{
    let created = new_term(tir, meta, term);
    meta.copy_location(source.0, created.0);
    match ast_entry(&meta.ast_terms, source.0) {
        Some(a) => {
            meta.ast_terms.insert(created.0, a);
        },
        None => {},
    }
    created
}

/// The syntax node and location that a type for typing `atom` takes.
pub open spec fn expected_ty_origin(t: Seq<NodeData>, meta: &TirMeta, atom: Atom) -> (Option<AstNodeId>, Option<Span>) {
    match atom {
        Atom::Term(origin) => match t[origin.0 as int] {
            NodeData::Term(Term::Fn(f)) => (entry(meta.ast_fn_defs@, f.0), meta.location_of(LocationTarget::Node(f.0))),
            NodeData::Term(Term::Var(v)) => (None, meta.location_of(LocationTarget::Symbol(v))),
            NodeData::Term(x) => if is_type_term(x) {
                (entry(meta.ast_tys@, origin.0), meta.location_of(LocationTarget::Node(origin.0)))
            } else {
                (entry(meta.ast_terms@, origin.0), meta.location_of(LocationTarget::Node(origin.0)))
            },
            _ => (None, None),
        },
        Atom::Pat(p) => (entry(meta.ast_pats@, p.0), meta.location_of(LocationTarget::Node(p.0))),
        Atom::FnDef(_) => (None, None),
    }
}

/// The type `ty` for typing `atom`: it takes the location and the syntax
/// node of the atom.
pub fn new_expected_ty_of(tir: &Tir, meta: &mut TirMeta, atom: Atom, ty: TyId) -> (r: TyId)
    requires
        match atom {
            Atom::Term(x) => has_kind(tir.nodes@, x.0, NodeKind::Term),
            Atom::Pat(p) => has_kind(tir.nodes@, p.0, NodeKind::Pat),
            Atom::FnDef(_) => false,
        },
    ensures
        r == ty,
        final(meta).node_locations@ == set_if(old(meta).node_locations@, ty.0, expected_ty_origin(tir.nodes@, &*old(meta), atom).1),
        final(meta).ast_tys@ == set_if(old(meta).ast_tys@, ty.0, expected_ty_origin(tir.nodes@, &*old(meta), atom).0),
        final(meta).symbol_locations@ == old(meta).symbol_locations@,
        final(meta).ast_terms@ == old(meta).ast_terms@,
        final(meta).ast_pats@ == old(meta).ast_pats@,
        final(meta).ast_fn_defs@ == old(meta).ast_fn_defs@,
{
    let (ast_info, location) = match atom {
        Atom::Term(origin) => match tir.get_term(origin) {
            Term::Fn(f) => (ast_entry(&meta.ast_fn_defs, f.0), meta.get_location(LocationTarget::Node(f.0))),
            Term::Var(v) => (None, meta.get_location(LocationTarget::Symbol(v))),
            Term::TupleTy { .. } | Term::FnTy(_) | Term::RefTy { .. } | Term::DataTy { .. } | Term::Universe => (
                ast_entry(&meta.ast_tys, origin.0),
                meta.get_location(LocationTarget::Node(origin.0)),
            ),
            _ => (ast_entry(&meta.ast_terms, origin.0), meta.get_location(LocationTarget::Node(origin.0))),
        },
        Atom::Pat(p) => (ast_entry(&meta.ast_pats, p.0), meta.get_location(LocationTarget::Node(p.0))),
        Atom::FnDef(_) => (None, None),
    };
    match location {
        Some(l) => meta.add_location_to_target(LocationTarget::Node(ty.0), l),
        None => {},
    }
    match ast_info {
        Some(a) => {
            meta.ast_tys.insert(ty.0, a);
        },
        None => {},
    }
    ty
}

/// A new hole, of a fresh symbol, for typing the type `src`.
pub fn new_ty_hole_of_ty(tir: &mut Tir, meta: &mut TirMeta, src: TyId) -> (r: TyId)
    requires
        old(tir).inv(),
    ensures
        final(tir).inv(),
        r.0 == old(tir).nodes@.len(),
        final(tir).nodes@ == old(tir).nodes@.push(NodeData::Term(Term::Hole(SymbolId(old(tir).symbols@.len() as usize)))),
        final(tir).symbols@ == old(tir).symbols@.push(SymbolData { name: None }),
        final(meta).node_locations@ == set_if(old(meta).node_locations@, r.0, entry(old(meta).node_locations@, src.0)),
        final(meta).ast_tys@ == set_if(old(meta).ast_tys@, r.0, entry(old(meta).ast_tys@, src.0)),
        final(meta).symbol_locations@ == old(meta).symbol_locations@,
        final(meta).ast_terms@ == old(meta).ast_terms@,
        final(meta).ast_pats@ == old(meta).ast_pats@,
        final(meta).ast_fn_defs@ == old(meta).ast_fn_defs@,
{
    let ty = tir.new_ty_hole();
    new_expected_ty_of_ty(meta, src, ty)
}

/// A new hole, of a fresh symbol, for typing the term `src`.
pub fn new_ty_hole_of(tir: &mut Tir, meta: &mut TirMeta, src: TermId) -> (r: TyId)
    requires
        old(tir).inv(),
        has_kind(old(tir).nodes@, src.0, NodeKind::Term),
    ensures
        final(tir).inv(),
        r.0 == old(tir).nodes@.len(),
        final(tir).nodes@ == old(tir).nodes@.push(NodeData::Term(Term::Hole(SymbolId(old(tir).symbols@.len() as usize)))),
        final(tir).symbols@ == old(tir).symbols@.push(SymbolData { name: None }),
        final(meta).node_locations@ == set_if(old(meta).node_locations@, r.0, expected_ty_origin(old(tir).nodes@, &*old(meta), Atom::Term(src)).1),
        final(meta).ast_tys@ == set_if(old(meta).ast_tys@, r.0, expected_ty_origin(old(tir).nodes@, &*old(meta), Atom::Term(src)).0),
        final(meta).symbol_locations@ == old(meta).symbol_locations@,
        final(meta).ast_terms@ == old(meta).ast_terms@,
        final(meta).ast_pats@ == old(meta).ast_pats@,
        final(meta).ast_fn_defs@ == old(meta).ast_fn_defs@,
{
    let ghost t0 = tir.nodes@;
    let ty = tir.new_ty_hole();
    assert(tir.nodes@[src.0 as int] == t0[src.0 as int]);
    new_expected_ty_of(tir, meta, Atom::Term(src), ty)
}

/// The term as a type, if it is one: a variable or a hole gives a new
/// type of the same symbol; a type is itself; other terms are not types.
pub fn try_use_term_as_ty(tir: &mut Tir, meta: &mut TirMeta, term: TermId) -> (r: Option<TyId>)
    requires
        old(tir).inv(),
        has_kind(old(tir).nodes@, term.0, NodeKind::Term),
    ensures
        final(tir).inv(),
        final(tir).symbols == old(tir).symbols,
        match old(tir).nodes@[term.0 as int] {
            NodeData::Term(Term::Var(v)) => r == Some(TermId(old(tir).nodes@.len() as usize))
                && final(tir).nodes@ == old(tir).nodes@.push(NodeData::Term(Term::Var(v)))
                && final(meta).node_locations@ == set_if(old(meta).node_locations@, old(tir).nodes@.len() as usize, new_ty_location(&*old(meta), Term::Var(v)))
                && only_locations_changed(&*final(meta), &*old(meta)),
            NodeData::Term(Term::Hole(h)) => r == Some(TermId(old(tir).nodes@.len() as usize))
                && final(tir).nodes@ == old(tir).nodes@.push(NodeData::Term(Term::Hole(h)))
                && final(meta).node_locations@ == old(meta).node_locations@
                && only_locations_changed(&*final(meta), &*old(meta)),
            NodeData::Term(x) => (if is_type_term(x) { r == Some(term) } else { r is None })
                && final(tir).nodes == old(tir).nodes
                && final(meta).node_locations@ == old(meta).node_locations@
                && only_locations_changed(&*final(meta), &*old(meta)),
            _ => false,
        },
{
    match tir.get_term(term) {
        Term::Var(v) => Some(new_ty(tir, meta, Term::Var(v))),
        Term::Hole(h) => Some(new_ty(tir, meta, Term::Hole(h))),
        Term::TupleTy { .. } | Term::FnTy(_) | Term::RefTy { .. } | Term::DataTy { .. } | Term::Universe => Some(term),
        _ => None,
    }
}

/// The term as a type: as `try_use_term_as_ty` does, and a term that is
/// not a type stands for the type it evaluates to.
pub fn use_term_as_ty(tir: &mut Tir, meta: &mut TirMeta, term: TermId) -> (r: TyId)
    requires
        old(tir).inv(),
        has_kind(old(tir).nodes@, term.0, NodeKind::Term),
    ensures
        final(tir).inv(),
        final(tir).symbols == old(tir).symbols,
        has_kind(final(tir).nodes@, r.0, NodeKind::Term),
        match old(tir).nodes@[term.0 as int] {
            NodeData::Term(Term::Var(v)) => r.0 == old(tir).nodes@.len() && final(tir).nodes@ == old(tir).nodes@.push(NodeData::Term(Term::Var(v))),
            NodeData::Term(Term::Hole(h)) => r.0 == old(tir).nodes@.len() && final(tir).nodes@ == old(tir).nodes@.push(NodeData::Term(Term::Hole(h))),
            _ => r == term && final(tir).nodes == old(tir).nodes,
        },
{
    let ghost t0 = tir.nodes@;
    let n0 = tir.nodes.len();
    let ro = try_use_term_as_ty(tir, meta, term);
    let r = match ro {
        Some(ty) => ty,
        None => term,
    };
    proof {
        match t0[term.0 as int] {
            NodeData::Term(Term::Var(v)) => {
                assert(tir.nodes@[r.0 as int] == NodeData::Term(Term::Var(v)));
            },
            NodeData::Term(Term::Hole(h)) => {
                assert(tir.nodes@[r.0 as int] == NodeData::Term(Term::Hole(h)));
            },
            _ => {
                assert(tir.nodes@ == t0);
            },
        }
    }
    r
}

/// The type as a term: a variable or a hole gives a new term of the same
/// symbol; any other type is itself a term.
pub fn use_ty_as_term(tir: &mut Tir, meta: &mut TirMeta, ty: TyId) -> (r: TermId)
    requires
        old(tir).inv(),
        has_kind(old(tir).nodes@, ty.0, NodeKind::Term),
    ensures
        final(tir).inv(),
        final(tir).symbols == old(tir).symbols,
        has_kind(final(tir).nodes@, r.0, NodeKind::Term),
        match old(tir).nodes@[ty.0 as int] {
            NodeData::Term(Term::Var(v)) => r.0 == old(tir).nodes@.len() && final(tir).nodes@ == old(tir).nodes@.push(NodeData::Term(Term::Var(v)))
                && final(meta).node_locations@ == set_if(old(meta).node_locations@, r.0, new_term_origin(&*old(meta), Term::Var(v)).1),
            NodeData::Term(Term::Hole(h)) => r.0 == old(tir).nodes@.len() && final(tir).nodes@ == old(tir).nodes@.push(NodeData::Term(Term::Hole(h)))
                && final(meta).node_locations@ == old(meta).node_locations@,
            _ => r == ty && final(tir).nodes == old(tir).nodes && final(meta).node_locations@ == old(meta).node_locations@,
        },
{
    match tir.get_term(ty) {
        Term::Var(v) => new_term(tir, meta, Term::Var(v)),
        Term::Hole(h) => new_term(tir, meta, Term::Hole(h)),
        _ => ty,
    }
}

} // verus!

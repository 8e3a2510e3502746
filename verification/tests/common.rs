use hash_compiler::ir::AstNodeId;
use hash_compiler::reporting::Span;
use hash_compiler::tir::common::{
    new_expected_ty_of, new_term, new_term_from, new_ty, new_ty_hole_of, try_use_term_as_ty, use_term_as_ty,
    use_ty_as_term, LocationTarget, TirMeta,
};
use hash_compiler::tir::store::{Atom, NodeData, Term, Tir};

#[test]
fn new_variables_take_the_location_of_their_symbol() {
    let mut tir = Tir::new();
    let mut meta = TirMeta::new();
    let s = tir.fresh_symbol();
    let span = Span { start: 4, end: 7 };
    meta.add_location_to_target(LocationTarget::Symbol(s), span);
    let t = new_term(&mut tir, &mut meta, Term::Var(s));
    assert_eq!(meta.get_location(LocationTarget::Node(t.0)), Some(span));
    let ty = new_ty(&mut tir, &mut meta, Term::Var(s));
    assert_eq!(meta.get_location(LocationTarget::Node(ty.0)), Some(span));
    let u = new_term(&mut tir, &mut meta, Term::Universe);
    assert_eq!(meta.get_location(LocationTarget::Node(u.0)), None);
}

#[test]
fn terms_made_from_others_inherit_their_origin() {
    let mut tir = Tir::new();
    let mut meta = TirMeta::new();
    let src = new_term(&mut tir, &mut meta, Term::Universe);
    let span = Span { start: 1, end: 2 };
    meta.add_location_to_target(LocationTarget::Node(src.0), span);
    meta.ast_terms.insert(src.0, AstNodeId(9));
    let t = new_term_from(&mut tir, &mut meta, src, Term::Deref { subject: src });
    assert_eq!(meta.get_location(LocationTarget::Node(t.0)), Some(span));
    assert_eq!(meta.ast_terms.get(&t.0), Some(&AstNodeId(9)));
}

#[test]
fn expected_types_take_the_origin_of_what_they_type() {
    let mut tir = Tir::new();
    let mut meta = TirMeta::new();
    let s = tir.fresh_symbol();
    let call = new_term(&mut tir, &mut meta, Term::Var(s));
    let deref = new_term(&mut tir, &mut meta, Term::Deref { subject: call });
    let span = Span { start: 10, end: 20 };
    meta.add_location_to_target(LocationTarget::Node(deref.0), span);
    meta.ast_terms.insert(deref.0, AstNodeId(3));
    let hole = new_ty_hole_of(&mut tir, &mut meta, deref);
    assert!(matches!(tir.nodes[hole.0], NodeData::Term(Term::Hole(_))));
    assert_eq!(meta.get_location(LocationTarget::Node(hole.0)), Some(span));
    assert_eq!(meta.ast_tys.get(&hole.0), Some(&AstNodeId(3)));
    let u = new_term(&mut tir, &mut meta, Term::Universe);
    assert_eq!(new_expected_ty_of(&tir, &mut meta, Atom::Term(deref), u), u);
    assert_eq!(meta.ast_tys.get(&u.0), Some(&AstNodeId(3)));
}

#[test]
fn terms_as_types() {
    let mut tir = Tir::new();
    let mut meta = TirMeta::new();
    let s = tir.fresh_symbol();
    let v = new_term(&mut tir, &mut meta, Term::Var(s));
    let u = new_term(&mut tir, &mut meta, Term::Universe);
    let d = new_term(&mut tir, &mut meta, Term::Deref { subject: v });
    let as_ty = try_use_term_as_ty(&mut tir, &mut meta, v).unwrap();
    assert_ne!(as_ty, v);
    assert_eq!(tir.nodes[as_ty.0], NodeData::Term(Term::Var(s)));
    assert_eq!(try_use_term_as_ty(&mut tir, &mut meta, u), Some(u));
    assert_eq!(try_use_term_as_ty(&mut tir, &mut meta, d), None);
    assert_eq!(use_term_as_ty(&mut tir, &mut meta, d), d);
    assert_eq!(use_ty_as_term(&mut tir, &mut meta, u), u);
    let back = use_ty_as_term(&mut tir, &mut meta, as_ty);
    assert_eq!(tir.nodes[back.0], NodeData::Term(Term::Var(s)));
}

use hash_compiler::ir::Identifier;
use hash_compiler::tir::params::ParamId;
use hash_compiler::tir::store::{
    Arg, Atom, NodeData, Param, ParamIndex, SymbolId, Term, TermId, Tir,
};
use hash_compiler::tir::sub::Sub;
use hash_compiler::typecheck::substitution::SubstitutionOps;

fn term(tir: &Tir, t: TermId) -> Term {
    match &tir.nodes[t.0] {
        NodeData::Term(x) => *x,
        _ => panic!("not a term"),
    }
}

#[test]
fn substitution_replaces_variables_inside_terms() {
    let mut tir = Tir::new();
    let x = tir.symbol_from_name(Identifier(1));
    let y = tir.symbol_from_name(Identifier(2));
    let vx = tir.new_term(Term::Var(x));
    let vy = tir.new_term(Term::Var(y));
    let args = tir.push_args(vec![Arg { target: ParamIndex::Position(0), value: vx }, Arg { target: ParamIndex::Position(1), value: vy }]);
    let tuple = tir.new_term(Term::Tuple { data: args });
    let u = tir.new_term(Term::Universe);
    let mut sub = Sub::identity();
    sub.insert(x, u);
    let ops = SubstitutionOps::new();
    assert!(ops.can_apply_sub_to_atom(&tir, Atom::Term(tuple), &sub));
    let r = ops.apply_sub_to_term(&mut tir, tuple, &sub);
    assert_ne!(r, tuple);
    match term(&tir, r) {
        Term::Tuple { data } => match &tir.nodes[data.0] {
            NodeData::Args(v) => {
                assert_eq!(v[0].value, u);
                assert_eq!(term(&tir, v[1].value), Term::Var(y));
            }
            _ => panic!("not arguments"),
        },
        _ => panic!("not a tuple"),
    }
    // the original term is unchanged
    assert_eq!(term(&tir, tuple), Term::Tuple { data: args });
}

#[test]
fn an_empty_substitution_applies_to_nothing() {
    let mut tir = Tir::new();
    let x = tir.fresh_symbol();
    let vx = tir.new_term(Term::Var(x));
    let sub = Sub::identity();
    let ops = SubstitutionOps::new();
    assert!(!ops.can_apply_sub_to_atom(&tir, Atom::Term(vx), &sub));
    let before = tir.nodes.len();
    assert_eq!(ops.apply_sub_to_term(&mut tir, vx, &sub), vx);
    assert_eq!(tir.nodes.len(), before);
}

#[test]
fn holes_are_found() {
    let mut tir = Tir::new();
    let h = tir.fresh_symbol();
    let hole = tir.new_term(Term::Hole(h));
    let r = tir.new_term(Term::Deref { subject: hole });
    let u = tir.new_term(Term::Universe);
    let ops = SubstitutionOps::new();
    assert_eq!(ops.atom_has_holes(&tir, Atom::Term(r)), Some(Atom::Term(hole)));
    assert_eq!(ops.atom_has_holes(&tir, Atom::Term(u)), None);
}

#[test]
fn copies_are_new_nodes() {
    let mut tir = Tir::new();
    let u = tir.new_term(Term::Universe);
    let r = tir.new_term(Term::RefTy { ty: u, kind: hash_compiler::ir::RefKind::Normal, mutable: false });
    let ops = SubstitutionOps::new();
    let c = ops.copy_ty(&mut tir, r);
    assert_ne!(c, r);
    match term(&tir, c) {
        Term::RefTy { ty, mutable, .. } => {
            assert!(!mutable);
            assert_eq!(term(&tir, ty), Term::Universe);
        }
        _ => panic!("not a reference type"),
    }
}

#[test]
fn renaming_params_skips_equal_names() {
    let mut tir = Tir::new();
    let a = tir.symbol_from_name(Identifier(1));
    let b = tir.symbol_from_name(Identifier(2));
    let c = tir.symbol_from_name(Identifier(3));
    let u = tir.new_term(Term::Universe);
    let src = tir.push_params(vec![Param { name: a, ty: u, default: None }, Param { name: b, ty: u, default: None }]);
    let tgt = tir.push_params(vec![Param { name: a, ty: u, default: None }, Param { name: c, ty: u, default: None }]);
    let ops = SubstitutionOps::new();
    let sub = ops.create_sub_from_param_names(&mut tir, src, tgt);
    assert_eq!(sub.data.len(), 1);
    assert_eq!(sub.data[0].0, b);
    assert_eq!(term(&tir, sub.data[0].1), Term::Var(c));
}

#[test]
fn accesses_cover_the_named_params() {
    let mut tir = Tir::new();
    let a = tir.symbol_from_name(Identifier(5));
    let anon = tir.fresh_symbol();
    let u = tir.new_term(Term::Universe);
    let ps = tir.push_params(vec![Param { name: a, ty: u, default: None }, Param { name: anon, ty: u, default: None }]);
    let ops = SubstitutionOps::new();
    let sub = ops.create_sub_from_param_access(&mut tir, ps, u);
    assert_eq!(sub.data.len(), 1);
    assert_eq!(term(&tir, sub.data[0].1), Term::Access { subject: u, field: ParamIndex::Name(Identifier(5)) });
}

#[test]
fn reversing_maps_variables_back() {
    let mut tir = Tir::new();
    let a = tir.fresh_symbol();
    let b = tir.fresh_symbol();
    let vb = tir.new_term(Term::Var(b));
    let mut sub = Sub::identity();
    sub.insert(a, vb);
    let ops = SubstitutionOps::new();
    let rev = ops.reverse_sub(&mut tir, &sub);
    assert_eq!(rev.data.len(), 1);
    assert_eq!(rev.data[0].0, b);
    assert_eq!(term(&tir, rev.data[0].1), Term::Var(a));
}

#[test]
fn hiding_params_drops_their_entries() {
    let mut tir = Tir::new();
    let a = tir.fresh_symbol();
    let b = tir.fresh_symbol();
    let c = tir.fresh_symbol();
    let u = tir.new_term(Term::Universe);
    let va = tir.new_term(Term::Var(a));
    let ps = tir.push_params(vec![Param { name: a, ty: u, default: None }]);
    let mut sub = Sub::identity();
    sub.insert(a, u);
    sub.insert(b, va);
    sub.insert(c, u);
    let ops = SubstitutionOps::new();
    let hidden = ops.hide_param_binds(&tir, &vec![ParamId(ps, 0)], &sub);
    assert_eq!(hidden.data, vec![(c, u)]);
}

#[test]
fn inserting_skips_a_variable_for_itself() {
    let mut tir = Tir::new();
    let a = tir.fresh_symbol();
    let b = tir.fresh_symbol();
    let va = tir.new_term(Term::Var(a));
    let vb = tir.new_term(Term::Var(b));
    let mut sub = Sub::identity();
    let ops = SubstitutionOps::new();
    ops.insert_to_sub_if_needed(&mut tir, &mut sub, a, va);
    assert!(sub.data.is_empty());
    ops.insert_to_sub_if_needed(&mut tir, &mut sub, a, vb);
    assert_eq!(sub.data.len(), 1);
    assert_eq!(term(&tir, sub.data[0].1), Term::Var(b));
}

#[test]
fn arguments_of_params_make_a_substitution() {
    let mut tir = Tir::new();
    let a = tir.fresh_symbol();
    let b = tir.fresh_symbol();
    let c = tir.fresh_symbol();
    let u = tir.new_term(Term::Universe);
    let va = tir.new_term(Term::Var(a));
    let vc = tir_var(&mut tir, c);
    let ps = tir.push_params(vec![
        Param { name: a, ty: u, default: None },
        Param { name: b, ty: u, default: None },
        Param { name: c, ty: u, default: None },
    ]);
    let args = tir.push_args(vec![
        Arg { target: ParamIndex::Position(0), value: u },
        Arg { target: ParamIndex::Position(1), value: va },
        Arg { target: ParamIndex::Position(2), value: vc },
    ]);
    let ops = SubstitutionOps::new();
    let sub = ops.create_sub_from_args_of_params(&mut tir, args, ps);
    // the third argument is the parameter's own variable: no entry
    assert_eq!(sub.data.len(), 2);
    assert_eq!(sub.data[0], (a, u));
    assert_eq!(sub.data[1].0, b);
    // the second argument sees the first entry applied to it
    assert_eq!(term(&tir, sub.data[1].1), Term::Universe);
}

fn tir_var(tir: &mut Tir, s: SymbolId) -> TermId {
    tir.new_term(Term::Var(s))
}

#[test]
fn params_hide_their_names_from_later_params() {
    let mut tir = Tir::new();
    let x = tir.fresh_symbol();
    let a = tir.fresh_symbol();
    let b = tir.fresh_symbol();
    let u = tir.new_term(Term::Universe);
    let vx = tir.new_term(Term::Var(x));
    let va = tir.new_term(Term::Var(a));
    let ps = tir.push_params(vec![
        Param { name: a, ty: vx, default: None },
        Param { name: b, ty: va, default: Some(vx) },
    ]);
    let mut sub = Sub::identity();
    sub.insert(x, u);
    sub.insert(a, u);
    let ops = SubstitutionOps::new();
    let (new_ps, rest) = ops.properly_apply_sub_to_params(&mut tir, ps, &sub);
    assert_eq!(rest.data, vec![(x, u)]);
    match &tir.nodes[new_ps.0] {
        NodeData::Params(v) => {
            assert_eq!(v.len(), 2);
            assert_eq!(v[0].name, a);
            assert_eq!(term(&tir, v[0].ty), Term::Universe);
            assert_eq!(v[1].name, b);
            // `a` is bound by the first parameter, so it stays a variable
            assert_eq!(term(&tir, v[1].ty), Term::Var(a));
            assert_eq!(term(&tir, v[1].default.unwrap()), Term::Universe);
        }
        _ => panic!("not parameters"),
    }
}

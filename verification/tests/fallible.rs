use hash_compiler::ir::RefKind;
use hash_compiler::tir::fallible::HoleCheck;
use hash_compiler::tir::store::{Arg, NodeData, ParamIndex, Term, TermId, Tir};
use hash_compiler::tir::sub::Sub;
use hash_compiler::tir::visitor::Visitor;
use hash_compiler::typecheck::substitution::FillingSubMapper;

fn term(tir: &Tir, t: TermId) -> Term {
    match &tir.nodes[t.0] {
        NodeData::Term(x) => *x,
        _ => panic!("not a term"),
    }
}

#[test]
fn a_filling_substitution_fails_at_an_unfilled_hole() {
    let mut tir = Tir::new();
    let h = tir.fresh_symbol();
    let g = tir.fresh_symbol();
    let hole = tir.new_term(Term::Hole(h));
    let other = tir.new_term(Term::Hole(g));
    let r1 = tir.new_term(Term::Ref { subject: hole, kind: RefKind::Normal, mutable: false });
    let args = tir.push_args(vec![
        Arg { target: ParamIndex::Position(0), value: hole },
        Arg { target: ParamIndex::Position(1), value: other },
    ]);
    let r2 = tir.new_term(Term::Tuple { data: args });
    let u = tir.new_term(Term::Universe);
    let mut sub = Sub::identity();
    sub.insert(h, u);
    // the filled hole is replaced
    let done = Visitor::new().fmap_term(&mut tir, r1, &FillingSubMapper { sub: &sub }).ok().unwrap();
    match term(&tir, done) {
        Term::Ref { subject, .. } => assert_eq!(subject, u),
        _ => panic!("expected a reference"),
    }
    // an unfilled hole that the map reaches is an error
    assert_eq!(Visitor::new().fmap_term(&mut tir, r2, &FillingSubMapper { sub: &sub }).err(), Some(g));
    // an error on the term itself leaves the store as it was
    let before = tir.nodes.len();
    assert_eq!(Visitor::new().fmap_term(&mut tir, other, &FillingSubMapper { sub: &sub }).err(), Some(g));
    assert_eq!(tir.nodes.len(), before);
}

#[test]
fn a_visit_stops_at_the_first_error() {
    let mut tir = Tir::new();
    let h = tir.fresh_symbol();
    let hole = tir.new_term(Term::Hole(h));
    let d = tir.new_term(Term::Deref { subject: hole });
    let r = tir.new_term(Term::Ref { subject: d, kind: RefKind::Normal, mutable: false });
    let u = tir.new_term(Term::Universe);
    let mut check = HoleCheck { seen: 0 };
    assert_eq!(Visitor::new().visit_term(&tir, r, &mut check), Err(hole));
    assert_eq!(check.seen, 3);
    let mut check = HoleCheck { seen: 0 };
    assert_eq!(Visitor::new().visit_term(&tir, u, &mut check), Ok(()));
    assert_eq!(check.seen, 1);
    let mut check = HoleCheck { seen: 0 };
    assert_eq!(Visitor::new().visit_term(&tir, hole, &mut check), Err(hole));
    assert_eq!(check.seen, 1);
}

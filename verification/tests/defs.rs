use hash_compiler::tir::context::{ModDefId, ModMemberId};
use hash_compiler::tir::defs::{
    ArrayCtorInfo, CtorDefData, DataDef, DataDefCtors, DataUtils, Defs, ModDef, ModMember, ModMemberValue,
    PrimitiveCtorInfo,
};
use hash_compiler::tir::store::{Atom, CtorDefId, DataDefId, Param, Term, Tir};
use hash_compiler::tir::visitor::Visitor;
use hash_compiler::typecheck::substitution::HoleFinder;

fn setup() -> (Tir, Defs, DataDefId) {
    let mut tir = Tir::new();
    let s = tir.fresh_symbol();
    let h = tir.fresh_symbol();
    let u = tir.new_term(Term::Universe);
    let hole = tir.new_term(Term::Hole(h));
    let params = tir.push_params(vec![Param { name: s, ty: u, default: None }]);
    let ctor_params = tir.push_params(vec![Param { name: s, ty: hole, default: None }]);
    let result_args = tir.push_args(vec![]);
    let mut defs = Defs { data_defs: vec![], ctor_defs: vec![], mod_defs: vec![] };
    let utils = DataUtils::new();
    let d = utils.create_primitive_data_def(&mut defs, s, params, PrimitiveCtorInfo::Str);
    let ctors = utils.create_data_ctors(&mut defs, d, &vec![CtorDefData { name: s, params: ctor_params, result_args }]);
    assert_eq!(utils.set_data_def_ctors(&mut defs, d, ctors), ctors);
    (tir, defs, d)
}

#[test]
fn data_definitions_are_created_and_their_constructors_set() {
    let (_tir, defs, d) = setup();
    assert!(matches!(defs.data_defs[d.0 as usize].ctors, DataDefCtors::Defined(0)));
    assert_eq!(defs.ctor_defs[0][0].data_def_id, d);
    assert_eq!(defs.ctor_defs[0][0].data_def_ctor_index, 0);
}

#[test]
fn visiting_a_data_definition_reaches_its_constructors() {
    let (tir, defs, d) = setup();
    let mut finder = HoleFinder { has_holes: None };
    Visitor::new().visit_data_def(&tir, &defs, d, &mut finder);
    assert_eq!(finder.has_holes, Some(Atom::Term(hash_compiler::tir::store::TermId(1))));
    let mut finder = HoleFinder { has_holes: None };
    Visitor::new().visit_ctor_def(&tir, &defs, CtorDefId(0, 0), &mut finder);
    assert!(finder.has_holes.is_some());
}

#[test]
fn visiting_modules_reaches_nested_members() {
    let (tir, mut defs, d) = setup();
    defs.mod_defs.push(ModDef { name: defs.data_defs[0].name, members: vec![ModMember { name: defs.data_defs[0].name, value: ModMemberValue::Data(d) }] });
    defs.mod_defs.push(ModDef { name: defs.data_defs[0].name, members: vec![ModMember { name: defs.data_defs[0].name, value: ModMemberValue::Mod(ModDefId(0)) }] });
    let mut finder = HoleFinder { has_holes: None };
    Visitor::new().visit_mod_def(&tir, &defs, ModDefId(1), &mut finder);
    assert!(finder.has_holes.is_some());
    let mut finder = HoleFinder { has_holes: None };
    Visitor::new().visit_mod_member(&tir, &defs, ModMemberId(1, 0), &mut finder);
    assert!(finder.has_holes.is_some());
}

#[test]
fn primitive_arrays_visit_their_element_type() {
    let mut tir = Tir::new();
    let s = tir.fresh_symbol();
    let hole = tir.new_term(Term::Hole(s));
    let params = tir.push_params(vec![]);
    let mut defs = Defs { data_defs: vec![], ctor_defs: vec![], mod_defs: vec![] };
    let d = DataUtils::new().create_primitive_data_def(&mut defs, s, params, PrimitiveCtorInfo::Array(ArrayCtorInfo { element_ty: hole }));
    let mut finder = HoleFinder { has_holes: None };
    Visitor::new().visit_data_def(&tir, &defs, d, &mut finder);
    assert_eq!(finder.has_holes, Some(Atom::Term(hole)));
    let _ = DataDef { name: s, params, ctors: DataDefCtors::Primitive(PrimitiveCtorInfo::Char) };
}

#[test]
fn module_holes_are_found_through_members() {
    let (tir, mut defs, d) = setup();
    let name = defs.data_defs[0].name;
    defs.mod_defs.push(ModDef { name, members: vec![] });
    defs.mod_defs.push(ModDef { name, members: vec![ModMember { name, value: ModMemberValue::Data(d) }] });
    let ops = hash_compiler::typecheck::substitution::SubstitutionOps::new();
    assert_eq!(ops.mod_def_has_holes(&tir, &defs, ModDefId(0)), None);
    assert_eq!(ops.mod_def_has_holes(&tir, &defs, ModDefId(1)), Some(Atom::Term(hash_compiler::tir::store::TermId(1))));
}

use hash_compiler::tir::defs::{CtorDefData, DataDef, DataDefCtors, DataUtils, Defs, NumericCtorInfo, PrimitiveCtorInfo};
use hash_compiler::tir::store::{CtorDefId, DataDefId, LitId, NodeData, Param, Term, TermId, Tir};
use hash_compiler::typecheck::infer::{FloatSuffix, InferOps, IntTy, LitKind, Primitives, SIntTy, UIntTy};

fn prims() -> Primitives {
    Primitives {
        i8: DataDefId(1),
        i16: DataDefId(2),
        i32: DataDefId(3),
        i64: DataDefId(4),
        i128: DataDefId(5),
        isize: DataDefId(6),
        ibig: DataDefId(7),
        u8: DataDefId(8),
        u16: DataDefId(9),
        u32: DataDefId(10),
        u64: DataDefId(11),
        u128: DataDefId(12),
        usize: DataDefId(13),
        ubig: DataDefId(14),
        str: DataDefId(15),
        char: DataDefId(16),
        float32: DataDefId(17),
        float64: DataDefId(18),
    }
}

fn data_def_of(tir: &Tir, t: TermId) -> DataDefId {
    match &tir.nodes[t.0] {
        NodeData::Term(Term::DataTy { data_def, .. }) => *data_def,
        _ => panic!("not a data type"),
    }
}

#[test]
fn literal_types_follow_their_suffix() {
    let mut tir = Tir::new();
    let ops = InferOps::new();
    let p = prims();
    let cases = [
        (LitKind::Int(None), 3),
        (LitKind::Int(Some(IntTy::Int(SIntTy::I8))), 1),
        (LitKind::Int(Some(IntTy::Int(SIntTy::IBig))), 7),
        (LitKind::Int(Some(IntTy::UInt(UIntTy::U64))), 11),
        (LitKind::Int(Some(IntTy::UInt(UIntTy::USize))), 13),
        (LitKind::Str, 15),
        (LitKind::Char, 16),
        (LitKind::Float(None), 17),
        (LitKind::Float(Some(FloatSuffix::F32)), 17),
        (LitKind::Float(Some(FloatSuffix::F64)), 18),
    ];
    for (lit, expected) in cases {
        let ty = ops.infer_ty_of_prim_term(&mut tir, &p, lit);
        assert_eq!(data_def_of(&tir, ty), DataDefId(expected));
        match &tir.nodes[ty.0] {
            NodeData::Term(Term::DataTy { args, .. }) => match &tir.nodes[args.0] {
                NodeData::Args(v) => assert!(v.is_empty()),
                _ => panic!("not arguments"),
            },
            _ => panic!("not a data type"),
        }
    }
}

#[test]
fn constructor_calls_have_their_data_type() {
    let mut tir = Tir::new();
    let s = tir.fresh_symbol();
    let u = tir.new_term(Term::Universe);
    let params = tir.push_params(vec![Param { name: s, ty: u, default: None }]);
    let empty = tir.push_args(vec![]);
    let mut defs = Defs { data_defs: vec![], ctor_defs: vec![], mod_defs: vec![] };
    let utils = DataUtils::new();
    let d = utils.create_primitive_data_def(&mut defs, s, params, PrimitiveCtorInfo::Str);
    let ctors = utils.create_data_ctors(&mut defs, d, &vec![CtorDefData { name: s, params, result_args: empty }]);
    utils.set_data_def_ctors(&mut defs, d, ctors);
    let call = tir.new_term(Term::Ctor { ctor: CtorDefId(0, 0), data_args: empty, ctor_args: empty });
    let lit = tir.new_term(Term::Lit(LitId(1)));
    let lits = vec![LitKind::Str, LitKind::Char];
    let ops = InferOps::new();
    let dt = ops.infer_ty_of_ctor_term(&defs, CtorDefId(0, 0), empty);
    assert_eq!(dt.data_def, d);
    assert_eq!(dt.args, empty);
    let ty = ops.infer_ty_of_term(&mut tir, &defs, &prims(), &lits, call).unwrap();
    assert_eq!(tir.nodes[ty.0], NodeData::Term(Term::DataTy { data_def: d, args: empty }));
    let ty = ops.infer_ty_of_term_or_hole(&mut tir, &defs, &prims(), &lits, lit);
    assert_eq!(data_def_of(&tir, ty), DataDefId(16));
}

#[test]
fn literals_take_a_fitting_annotated_type() {
    let mut tir = Tir::new();
    let s = tir.fresh_symbol();
    let params = tir.push_params(vec![]);
    let args = tir.push_args(vec![]);
    let numeric = |bits: u64, is_signed: bool, is_float: bool| DataDef {
        name: s,
        params,
        ctors: DataDefCtors::Primitive(PrimitiveCtorInfo::Numeric(NumericCtorInfo { bits, is_signed, is_float })),
    };
    let defs = Defs {
        data_defs: vec![numeric(8, false, false), numeric(64, true, false), numeric(32, true, true)],
        ctor_defs: vec![],
        mod_defs: vec![],
    };
    let u8_ty = tir.new_term(Term::DataTy { data_def: DataDefId(0), args });
    let i64_ty = tir.new_term(Term::DataTy { data_def: DataDefId(1), args });
    let f32_ty = tir.new_term(Term::DataTy { data_def: DataDefId(2), args });
    let other = tir.new_term(Term::Universe);
    let ops = InferOps::new();
    let p = prims();
    let int = LitKind::Int(None);
    let float = LitKind::Float(None);
    assert_eq!(ops.lit_data_def_against(&tir, &defs, &p, int, false, u8_ty), DataDefId(0));
    assert_eq!(ops.lit_data_def_against(&tir, &defs, &p, int, true, u8_ty), p.i32);
    assert_eq!(ops.lit_data_def_against(&tir, &defs, &p, int, true, i64_ty), DataDefId(1));
    assert_eq!(ops.lit_data_def_against(&tir, &defs, &p, int, false, f32_ty), p.i32);
    assert_eq!(ops.lit_data_def_against(&tir, &defs, &p, int, false, other), p.i32);
    assert_eq!(ops.lit_data_def_against(&tir, &defs, &p, float, false, f32_ty), DataDefId(2));
    assert_eq!(ops.lit_data_def_against(&tir, &defs, &p, float, false, i64_ty), p.float64);
    assert_eq!(ops.lit_data_def_against(&tir, &defs, &p, LitKind::Float(Some(FloatSuffix::F32)), false, i64_ty), p.float32);
    assert_eq!(ops.lit_data_def_against(&tir, &defs, &p, LitKind::Int(Some(IntTy::UInt(UIntTy::U16))), true, i64_ty), p.u16);
    assert_eq!(ops.lit_data_def_against(&tir, &defs, &p, LitKind::Char, false, u8_ty), p.char);
}

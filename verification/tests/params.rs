use hash_compiler::ir::Identifier;
use hash_compiler::tir::params::{ParamId, SomeArgId, SomeArgsId, SomeParamsOrArgsId};
use hash_compiler::tir::store::{
    Arg, ArgsId, NodeData, Param, ParamIndex, ParamsId, Pat, PatArg, PatArgsId, PatOrCapture, Spread,
    SymbolId, Term, TermId, Tir,
};
use hash_compiler::typecheck::params::{ParamError, ParamOps};

struct Fixture {
    tir: Tir,
    a: SymbolId,
    b: SymbolId,
    c: SymbolId,
    unit: TermId,
    one: TermId,
}

fn fixture() -> Fixture {
    let mut tir = Tir::new();
    let a = tir.symbol_from_name(Identifier(1));
    let b = tir.symbol_from_name(Identifier(2));
    let c = tir.symbol_from_name(Identifier(3));
    let unit = tir.new_term(Term::Universe);
    let one = tir.new_term(Term::Var(a));
    Fixture { tir, a, b, c, unit, one }
}

fn params(f: &mut Fixture, ps: Vec<(SymbolId, Option<TermId>)>) -> ParamsId {
    let v = ps.into_iter().map(|(name, default)| Param { name, ty: f.unit, default }).collect();
    f.tir.push_params(v)
}

fn args(f: &mut Fixture, targets: Vec<ParamIndex>) -> ArgsId {
    let v = targets.into_iter().map(|target| Arg { target, value: f.one }).collect();
    f.tir.push_args(v)
}

fn args_of(tir: &Tir, id: ArgsId) -> Vec<Arg> {
    match &tir.nodes[id.0] {
        NodeData::Args(v) => v.clone(),
        _ => panic!("not arguments"),
    }
}

fn pat_args_of(tir: &Tir, id: PatArgsId) -> Vec<PatArg> {
    match &tir.nodes[id.0] {
        NodeData::PatArgs(v) => v.clone(),
        _ => panic!("not pattern arguments"),
    }
}

#[test]
fn valid_params_pass() {
    let mut f = fixture();
    let (a, b) = (f.a, f.b);
    let one = f.one;
    let p = params(&mut f, vec![(a, None), (b, Some(one))]);
    assert_eq!(ParamOps::new().validate_params(&f.tir, p), Ok(()));
}

#[test]
fn duplicate_param_and_required_after_default() {
    let mut f = fixture();
    let (a, b) = (f.a, f.b);
    let one = f.one;
    let p = params(&mut f, vec![(a, Some(one)), (b, None), (a, Some(one))]);
    let errs = ParamOps::new().validate_params(&f.tir, p).unwrap_err();
    assert_eq!(
        errs,
        vec![
            ParamError::RequiredParamAfterDefaultParam { first_default: ParamId(p, 0), next_required: ParamId(p, 1) },
            ParamError::DuplicateParam { first: ParamId(p, 2), second: ParamId(p, 2) },
        ]
    );
}

#[test]
fn args_errors_are_reported_in_order() {
    let mut f = fixture();
    let a = f.a;
    let p = params(&mut f, vec![(a, None)]);
    let x = args(
        &mut f,
        vec![ParamIndex::Name(Identifier(1)), ParamIndex::Position(1), ParamIndex::Name(Identifier(1))],
    );
    let id = SomeArgsId::Args(x);
    let errs = ParamOps::new().validate_args_against_params(&f.tir, id, p).unwrap_err();
    assert_eq!(
        errs,
        vec![
            ParamError::TooManyArgs { expected: p, got: id },
            ParamError::PositionalArgAfterNamedArg { first_named: SomeArgId(id, 0), next_positional: SomeArgId(id, 1) },
            ParamError::DuplicateArg { first: SomeArgId(id, 2), second: SomeArgId(id, 2) },
        ]
    );
}

#[test]
fn reorder_moves_named_args_and_fills_defaults() {
    let mut f = fixture();
    let (a, b, c) = (f.a, f.b, f.c);
    let unit = f.unit;
    let p = params(&mut f, vec![(a, None), (b, Some(unit)), (c, None)]);
    let x = args(&mut f, vec![ParamIndex::Position(0), ParamIndex::Name(Identifier(3))]);
    let before = f.tir.nodes.len();
    let r = ParamOps::new().validate_and_reorder_args_against_params(&mut f.tir, x, p).unwrap();
    assert_eq!(r, ArgsId(before));
    let out = args_of(&f.tir, r);
    assert_eq!(
        out,
        vec![
            Arg { target: ParamIndex::Name(Identifier(1)), value: f.one },
            Arg { target: ParamIndex::Name(Identifier(2)), value: unit },
            Arg { target: ParamIndex::Name(Identifier(3)), value: f.one },
        ]
    );
}

#[test]
fn reorder_reports_missing_and_unknown() {
    let mut f = fixture();
    let (a, b) = (f.a, f.b);
    let p = params(&mut f, vec![(a, None), (b, None)]);
    let x = args(&mut f, vec![ParamIndex::Name(Identifier(9))]);
    let errs = ParamOps::new().validate_and_reorder_args_against_params(&mut f.tir, x, p).unwrap_err();
    assert_eq!(errs, vec![ParamError::ArgNameNotFoundInParams { arg: SomeArgId(SomeArgsId::Args(x), 0), params: p }]);
    let y = args(&mut f, vec![ParamIndex::Position(0)]);
    let n = f.tir.nodes.len();
    let errs = ParamOps::new().validate_and_reorder_args_against_params(&mut f.tir, y, p).unwrap_err();
    assert_eq!(errs, vec![ParamError::RequiredParamNotFoundInArgs { param: ParamId(p, 1), args: SomeArgsId::Args(y) }]);
    assert_eq!(f.tir.nodes.len(), n);
}

#[test]
fn reorder_reports_positional_taken_by_name() {
    let mut f = fixture();
    let (a, b) = (f.a, f.b);
    let p = params(&mut f, vec![(a, None), (b, None)]);
    let x = args(&mut f, vec![ParamIndex::Position(0), ParamIndex::Name(Identifier(1))]);
    let errs = ParamOps::new().validate_and_reorder_args_against_params(&mut f.tir, x, p).unwrap_err();
    let id = SomeArgsId::Args(x);
    assert_eq!(errs, vec![ParamError::DuplicateArg { first: SomeArgId(id, 0), second: SomeArgId(id, 1) }]);
}

#[test]
fn pattern_args_with_spread_capture_the_rest() {
    let mut f = fixture();
    let (a, b, c) = (f.a, f.b, f.c);
    let p = params(&mut f, vec![(a, None), (b, None), (c, None)]);
    let pat = f.tir.push_node(NodeData::Pat(Pat::Binding { name: a, is_mutable: false }));
    let pat = hash_compiler::tir::store::PatId(pat);
    let x = f.tir.push_pat_args(vec![PatArg { target: ParamIndex::Name(Identifier(2)), pat: PatOrCapture::Pat(pat) }]);
    let spread = Some(Spread { name: c, index: 1 });
    let r = ParamOps::new().validate_and_reorder_pat_args_against_params(&mut f.tir, x, spread, p).unwrap();
    assert_eq!(
        pat_args_of(&f.tir, r),
        vec![
            PatArg { target: ParamIndex::Name(Identifier(1)), pat: PatOrCapture::Capture },
            PatArg { target: ParamIndex::Name(Identifier(2)), pat: PatOrCapture::Pat(pat) },
            PatArg { target: ParamIndex::Name(Identifier(3)), pat: PatOrCapture::Capture },
        ]
    );
}

#[test]
fn pattern_args_without_spread_must_cover_params() {
    let mut f = fixture();
    let (a, b) = (f.a, f.b);
    let p = params(&mut f, vec![(a, None), (b, None)]);
    let x = f.tir.push_pat_args(vec![PatArg { target: ParamIndex::Position(0), pat: PatOrCapture::Capture }]);
    let errs = ParamOps::new().validate_and_reorder_pat_args_against_params(&mut f.tir, x, None, p).unwrap_err();
    assert_eq!(errs, vec![ParamError::RequiredParamNotFoundInArgs { param: ParamId(p, 1), args: SomeArgsId::PatArgs(x) }]);
}

#[test]
fn positional_pattern_arg_after_spread_is_an_error() {
    let mut f = fixture();
    let (a, b) = (f.a, f.b);
    let p = params(&mut f, vec![(a, None), (b, None)]);
    let x = f.tir.push_pat_args(vec![
        PatArg { target: ParamIndex::Position(0), pat: PatOrCapture::Capture },
        PatArg { target: ParamIndex::Position(1), pat: PatOrCapture::Capture },
    ]);
    let spread = Some(Spread { name: a, index: 0 });
    let errs = ParamOps::new().validate_and_reorder_pat_args_against_params(&mut f.tir, x, spread, p).unwrap_err();
    assert_eq!(errs, vec![ParamError::SpreadBeforePositionalArg { next_positional: SomeArgId(SomeArgsId::PatArgs(x), 1) }]);
}

#[test]
fn lists_know_their_lengths_and_nouns() {
    let mut f = fixture();
    let a = f.a;
    let p = params(&mut f, vec![(a, None)]);
    let x = args(&mut f, vec![]);
    assert_eq!(SomeParamsOrArgsId::Params(p).len(&f.tir), 1);
    assert!(SomeParamsOrArgsId::Args(x).is_empty(&f.tir));
    assert_eq!(SomeParamsOrArgsId::Args(x).as_str(), "arguments");
    assert_eq!(SomeParamsOrArgsId::Params(p).as_str(), "parameters");
}

#[test]
fn params_are_found_by_index() {
    let mut f = fixture();
    let (a, b) = (f.a, f.b);
    let p = params(&mut f, vec![(a, None), (b, None)]);
    assert_eq!(p.at_param_index(&f.tir, ParamIndex::Name(Identifier(2))), Some(1));
    assert_eq!(p.at_index(&f.tir, ParamIndex::Name(Identifier(7))), None);
    assert_eq!(p.at_index(&f.tir, ParamIndex::Position(5)), None);
    assert_eq!(ParamId(p, 0).as_param_index(&f.tir), ParamIndex::Name(Identifier(1)));
}

//! Validation of parameter lists, and of argument lists against them.

use vstd::prelude::*;

use crate::ir::Identifier;
use crate::tir::params::{
    arg_targets, args_at, first_named, lemma_arg_value_term, lemma_first_named,
    lemma_param_default_term, lemma_pat_arg_pat, param_index_of, params_at, pat_args_at,
    some_args_ok, symbol_ident, ParamId, SomeArgId, SomeArgsId,
};
use crate::tir::store::{
    children, child_kinds, extends, has_kind, kind_of, lemma_flat_ok, pat_arg_kids, pat_arg_kinds, Arg, ArgsId, NodeData, NodeKind, Param, ParamIndex, ParamsId, PatArg,
    PatArgsId, PatOrCapture, Spread, SymbolData, TermId, Tir,
};

verus! {

/// An error in a parameter list, or in an argument list against the
/// parameters it is for.
#[derive(Debug, Clone, Copy, PartialEq, Eq, Structural)]
pub enum ParamError {
    TooManyArgs { expected: ParamsId, got: SomeArgsId },
    DuplicateArg { first: SomeArgId, second: SomeArgId },
    DuplicateParam { first: ParamId, second: ParamId },
    PositionalArgAfterNamedArg { first_named: SomeArgId, next_positional: SomeArgId },
    RequiredParamAfterDefaultParam { first_default: ParamId, next_required: ParamId },
    ArgNameNotFoundInParams { arg: SomeArgId, params: ParamsId },
    ParamNameMismatch { param_a: ParamId, param_b: ParamId },
    RequiredParamNotFoundInArgs { param: ParamId, args: SomeArgsId },
    SpreadBeforePositionalArg { next_positional: SomeArgId },
}

/// The name of a parameter, if its symbol has one.
pub open spec fn param_name(syms: Seq<SymbolData>, p: Param) -> Option<Identifier> {
    symbol_ident(syms, p.name)
}

/// Some parameter before position `k` has the name `n`.
pub open spec fn param_name_before(syms: Seq<SymbolData>, ps: Seq<Param>, k: int, n: Identifier) -> bool {
    exists|i: int| 0 <= i < k && #[trigger] param_name(syms, ps[i]) == Some(n)
}

/// The first parameter before position `k` that has a default value.
pub open spec fn first_default_before(ps: Seq<Param>, k: int) -> Option<int>
    decreases k,
{
    if k <= 0 {
        None
    } else {
        match first_default_before(ps, k - 1) {
            Some(d) => Some(d),
            None => if ps[k - 1].default is Some {
                Some(k - 1)
            } else {
                None
            },
        }
    }
}

/// The errors that the parameter at position `k` adds: a duplicate name,
/// and a required parameter after one with a default.
pub open spec fn param_step_errors(syms: Seq<SymbolData>, ps: Seq<Param>, id: ParamsId, k: int) -> Seq<ParamError> {
    let here = ParamId(id, k as usize);
    let dup = match param_name(syms, ps[k]) {
        Some(n) => if param_name_before(syms, ps, k, n) {
            seq![ParamError::DuplicateParam { first: here, second: here }]
        } else {
            seq![]
        },
        None => seq![],
    };
    let req = match first_default_before(ps, k) {
        Some(d) => if ps[k].default is None {
            seq![ParamError::RequiredParamAfterDefaultParam { first_default: ParamId(id, d as usize), next_required: here }]
        } else {
            seq![]
        },
        None => seq![],
    };
    dup + req
}

/// The errors of the first `k` parameters, in order.
pub open spec fn param_errors(syms: Seq<SymbolData>, ps: Seq<Param>, id: ParamsId, k: int) -> Seq<ParamError>
    decreases k,
{
    if k <= 0 {
        seq![]
    } else {
        param_errors(syms, ps, id, k - 1) + param_step_errors(syms, ps, id, k - 1)
    }
}

/// Some argument before position `j` targets the name `n`.
pub open spec fn arg_name_before(ts: Seq<ParamIndex>, j: int, n: Identifier) -> bool {
    exists|i: int| 0 <= i < j && ts[i] == ParamIndex::Name(n)
}

/// The first argument before position `j` that targets a name.
pub open spec fn first_named_arg_before(ts: Seq<ParamIndex>, j: int) -> Option<int>
    decreases j,
{
    if j <= 0 {
        None
    } else {
        match first_named_arg_before(ts, j - 1) {
            Some(f) => Some(f),
            None => if ts[j - 1] is Name {
                Some(j - 1)
            } else {
                None
            },
        }
    }
}

/// The errors that the argument at position `j` adds: a duplicate name,
/// and a positional argument after a named one.
pub open spec fn arg_step_errors(ts: Seq<ParamIndex>, id: SomeArgsId, j: int) -> Seq<ParamError> {
    let here = SomeArgId(id, j as usize);
    let dup = match ts[j] {
        ParamIndex::Name(n) => if arg_name_before(ts, j, n) {
            seq![ParamError::DuplicateArg { first: here, second: here }]
        } else {
            seq![]
        },
        ParamIndex::Position(_) => seq![],
    };
    let pos = match first_named_arg_before(ts, j) {
        Some(f) => if ts[j] is Position {
            seq![ParamError::PositionalArgAfterNamedArg { first_named: SomeArgId(id, f as usize), next_positional: here }]
        } else {
            seq![]
        },
        None => seq![],
    };
    dup + pos
}

/// The errors of the first `j` arguments, in order.
pub open spec fn arg_errors(ts: Seq<ParamIndex>, id: SomeArgsId, j: int) -> Seq<ParamError>
    decreases j,
{
    if j <= 0 {
        seq![]
    } else {
        arg_errors(ts, id, j - 1) + arg_step_errors(ts, id, j - 1)
    }
}

/// The errors of arguments with targets `ts` against `n_params` parameters.
pub open spec fn args_against_params_errors(ts: Seq<ParamIndex>, id: SomeArgsId, params: ParamsId, n_params: int) -> Seq<ParamError> {
    let too_many = if ts.len() > n_params {
        seq![ParamError::TooManyArgs { expected: params, got: id }]
    } else {
        seq![]
    };
    too_many + arg_errors(ts, id, ts.len() as int)
}

/// The outcome of a validation: success without errors, or the errors.
pub open spec fn outcome_is<T>(r: Result<T, Vec<ParamError>>, errs: Seq<ParamError>) -> bool {
    match r {
        Ok(_) => errs.len() == 0,
        Err(e) => errs.len() > 0 && e@ == errs,
    }
}

/// Every step of a run of errors without errors is itself without errors.
pub proof fn lemma_param_errors_empty(syms: Seq<SymbolData>, ps: Seq<Param>, id: ParamsId, k: int)
    ensures
        param_errors(syms, ps, id, k).len() == 0 <==> forall|i: int|
            0 <= i < k ==> #[trigger] param_step_errors(syms, ps, id, i).len() == 0,
    decreases k,
{
    if k > 0 {
        lemma_param_errors_empty(syms, ps, id, k - 1);
        if param_errors(syms, ps, id, k).len() == 0 {
            assert forall|i: int| 0 <= i < k implies #[trigger] param_step_errors(syms, ps, id, i).len() == 0 by {
                if i < k - 1 {
                }
            }
        }
    }
}

/// Every step of a run of errors without errors is itself without errors.
pub proof fn lemma_arg_errors_empty(ts: Seq<ParamIndex>, id: SomeArgsId, j: int)
    ensures
        arg_errors(ts, id, j).len() == 0 <==> forall|i: int|
            0 <= i < j ==> #[trigger] arg_step_errors(ts, id, i).len() == 0,
    decreases j,
{
    if j > 0 {
        lemma_arg_errors_empty(ts, id, j - 1);
        if arg_errors(ts, id, j).len() == 0 {
            assert forall|i: int| 0 <= i < j implies #[trigger] arg_step_errors(ts, id, i).len() == 0 by {
                if i < j - 1 {
                }
            }
        }
    }
}

/// `first_default_before` finds a parameter with a default exactly when
/// there is one, and the first.
pub proof fn lemma_first_default_before(ps: Seq<Param>, k: int)
    requires
        k <= ps.len(),
    ensures
        first_default_before(ps, k) matches Some(d) ==> 0 <= d < k && ps[d].default is Some
            && forall|i: int| 0 <= i < d ==> ps[i].default is None,
        first_default_before(ps, k) is None ==> forall|i: int| 0 <= i < k ==> ps[i].default is None,
    decreases k,
{
    if k > 0 {
        lemma_first_default_before(ps, k - 1);
    }
}

/// `first_named_arg_before` finds a named argument exactly when there is
/// one, and the first.
pub proof fn lemma_first_named_arg_before(ts: Seq<ParamIndex>, j: int)
    requires
        j <= ts.len(),
    ensures
        first_named_arg_before(ts, j) matches Some(f) ==> 0 <= f < j && ts[f] is Name
            && forall|i: int| 0 <= i < f ==> ts[i] is Position,
        first_named_arg_before(ts, j) is None ==> forall|i: int| 0 <= i < j ==> ts[i] is Position,
    decreases j,
{
    if j > 0 {
        lemma_first_named_arg_before(ts, j - 1);
    }
}

/// No positional argument is out of place: the one at position `j` targets
/// position `j`.
pub open spec fn positions_in_place(ts: Seq<ParamIndex>) -> bool {
    forall|j: int| 0 <= j < ts.len() ==> (#[trigger] ts[j] matches ParamIndex::Position(p) ==> p == j)
}

/// One step of reordering: place the argument at position `j`, with target
/// `target` and payload `v`, in the slots `res` of the parameters.
pub open spec fn reorder_step<V>(
    syms: Seq<SymbolData>,
    ps: Seq<Param>,
    pid: ParamsId,
    aid: SomeArgsId,
    spread: Option<Spread>,
    target: ParamIndex,
    v: V,
    j: int,
    res: Seq<Option<(ParamIndex, V)>>,
) -> (Seq<Option<(ParamIndex, V)>>, Seq<ParamError>) {
    let here = SomeArgId(aid, j as usize);
    match target {
        ParamIndex::Position(_) => {
            let errs = match spread {
                Some(sp) => if j != 0 && sp.index == j - 1 {
                    seq![ParamError::SpreadBeforePositionalArg { next_positional: here }]
                } else {
                    seq![]
                },
                None => seq![],
            };
            (res.update(j, Some((param_index_of(syms, ps, j), v))), errs)
        },
        ParamIndex::Name(n) => match first_named(syms, ps, n) {
            Some(i) => if res[i] is Some {
                (res, seq![ParamError::DuplicateArg { first: SomeArgId(aid, i as usize), second: here }])
            } else {
                (res.update(i, Some((target, v))), seq![])
            },
            None => (res, seq![ParamError::ArgNameNotFoundInParams { arg: here, params: pid }]),
        },
    }
}

/// The slots and errors after placing the first `j` arguments.
pub open spec fn reorder_pass<V>(
    syms: Seq<SymbolData>,
    ps: Seq<Param>,
    pid: ParamsId,
    aid: SomeArgsId,
    spread: Option<Spread>,
    ts: Seq<ParamIndex>,
    vs: Seq<V>,
    j: int,
) -> (Seq<Option<(ParamIndex, V)>>, Seq<ParamError>)
    decreases j,
{
    if j <= 0 {
        (Seq::new(ps.len(), |i: int| None), seq![])
    } else {
        let p = reorder_pass(syms, ps, pid, aid, spread, ts, vs, j - 1);
        let q = reorder_step(syms, ps, pid, aid, spread, ts[j - 1], vs[j - 1], j - 1, p.0);
        (q.0, p.1 + q.1)
    }
}

/// One step of filling: an empty slot `i` takes the fill value, else the
/// parameter is reported missing.
pub open spec fn fill_step<V>(
    syms: Seq<SymbolData>,
    ps: Seq<Param>,
    pid: ParamsId,
    aid: SomeArgsId,
    fills: Seq<Option<V>>,
    i: int,
    res: Seq<Option<(ParamIndex, V)>>,
) -> (Seq<Option<(ParamIndex, V)>>, Seq<ParamError>) {
    if res[i] is None {
        match fills[i] {
            Some(v) => (res.update(i, Some((param_index_of(syms, ps, i), v))), seq![]),
            None => (res, seq![ParamError::RequiredParamNotFoundInArgs { param: ParamId(pid, i as usize), args: aid }]),
        }
    } else {
        (res, seq![])
    }
}

/// The slots and errors after filling the first `i` slots.
pub open spec fn fill_pass<V>(
    syms: Seq<SymbolData>,
    ps: Seq<Param>,
    pid: ParamsId,
    aid: SomeArgsId,
    fills: Seq<Option<V>>,
    res: Seq<Option<(ParamIndex, V)>>,
    i: int,
) -> (Seq<Option<(ParamIndex, V)>>, Seq<ParamError>)
    decreases i,
{
    if i <= 0 {
        (res, seq![])
    } else {
        let p = fill_pass(syms, ps, pid, aid, fills, res, i - 1);
        let q = fill_step(syms, ps, pid, aid, fills, i - 1, p.0);
        (q.0, p.1 + q.1)
    }
}

/// The errors of validating and reordering arguments with targets `ts` and
/// payloads `vs` against the parameters `ps`: those of the validation, or
/// else those of placing the arguments, or else those of filling the
/// remaining slots.
pub open spec fn reorder_errors<V>(
    syms: Seq<SymbolData>,
    ps: Seq<Param>,
    pid: ParamsId,
    aid: SomeArgsId,
    spread: Option<Spread>,
    ts: Seq<ParamIndex>,
    vs: Seq<V>,
    fills: Seq<Option<V>>,
) -> Seq<ParamError> {
    let v = args_against_params_errors(ts, aid, pid, ps.len() as int);
    let placed = reorder_pass(syms, ps, pid, aid, spread, ts, vs, ts.len() as int);
    if v.len() > 0 {
        v
    } else if placed.1.len() > 0 {
        placed.1
    } else {
        fill_pass(syms, ps, pid, aid, fills, placed.0, ps.len() as int).1
    }
}

/// The slots of the parameters after reordering.
pub open spec fn reorder_slots<V>(
    syms: Seq<SymbolData>,
    ps: Seq<Param>,
    pid: ParamsId,
    aid: SomeArgsId,
    spread: Option<Spread>,
    ts: Seq<ParamIndex>,
    vs: Seq<V>,
    fills: Seq<Option<V>>,
) -> Seq<Option<(ParamIndex, V)>> {
    let placed = reorder_pass(syms, ps, pid, aid, spread, ts, vs, ts.len() as int);
    fill_pass(syms, ps, pid, aid, fills, placed.0, ps.len() as int).0
}

/// The arguments that filled slots stand for.
pub open spec fn slots_to_args(res: Seq<Option<(ParamIndex, TermId)>>) -> Seq<Arg> {
    res.map_values(|o: Option<(ParamIndex, TermId)>| match o {
        Some(p) => Arg { target: p.0, value: p.1 },
        None => Arg { target: ParamIndex::Position(0), value: TermId(0) },
    })
}

/// The pattern arguments that filled slots stand for.
pub open spec fn slots_to_pat_args(res: Seq<Option<(ParamIndex, PatOrCapture)>>) -> Seq<PatArg> {
    res.map_values(|o: Option<(ParamIndex, PatOrCapture)>| match o {
        Some(p) => PatArg { target: p.0, pat: p.1 },
        None => PatArg { target: ParamIndex::Position(0), pat: PatOrCapture::Capture },
    })
}

/// The default values of the parameters, which fill the slots of missing
/// arguments.
pub open spec fn param_defaults(ps: Seq<Param>) -> Seq<Option<TermId>> {
    ps.map_values(|p: Param| p.default)
}

/// With a spread, the missing pattern arguments are captured.
pub open spec fn spread_fills(n: nat, spread: Option<Spread>) -> Seq<Option<PatOrCapture>> {
    Seq::new(n, |i: int| if spread is Some { Some(PatOrCapture::Capture) } else { None })
}

/// A filled slot holds a stored term.
pub open spec fn slot_term_ok(t: Seq<NodeData>, o: Option<(ParamIndex, TermId)>) -> bool {
    match o {
        Some(p) => has_kind(t, p.1.0, NodeKind::Term),
        None => true,
    }
}

/// A filled slot holds a stored pattern, or a capture.
pub open spec fn pat_slot_ok(t: Seq<NodeData>, o: Option<(ParamIndex, PatOrCapture)>) -> bool {
    match o {
        Some((_, PatOrCapture::Pat(q))) => has_kind(t, q.0, NodeKind::Pat),
        _ => true,
    }
}

/// The argument at position `k` names the slot `i`.
pub open spec fn names_slot(syms: Seq<SymbolData>, ps: Seq<Param>, t: ParamIndex, i: int) -> bool {
    t matches ParamIndex::Name(m) && first_named(syms, ps, m) == Some(i)
}

/// Every step of the run of errors of a valid argument list is without
/// errors; in particular no name occurs twice.
pub proof fn lemma_valid_args_distinct(ts: Seq<ParamIndex>, id: SomeArgsId, j: int, n: Identifier)
    requires
        arg_errors(ts, id, ts.len() as int).len() == 0,
        0 <= j < ts.len(),
        ts[j] == ParamIndex::Name(n),
    ensures
        !arg_name_before(ts, j, n),
{
    lemma_arg_errors_empty(ts, id, ts.len() as int);
    assert(arg_step_errors(ts, id, j).len() == 0);
}

/// In a valid argument list, no positional argument comes after a named
/// one.
pub proof fn lemma_valid_args_positional_first(ts: Seq<ParamIndex>, id: SomeArgsId, k: int, j: int)
    requires
        arg_errors(ts, id, ts.len() as int).len() == 0,
        0 <= k < j < ts.len(),
        ts[k] is Name,
    ensures
        ts[j] is Name,
{
    lemma_arg_errors_empty(ts, id, ts.len() as int);
    assert(arg_step_errors(ts, id, j).len() == 0);
    lemma_first_named_arg_before(ts, j);
}

/// Parameters are valid exactly when no two of them share a name and every
/// parameter after one with a default has a default too.
pub proof fn lemma_validate_params_ok_iff(syms: Seq<SymbolData>, ps: Seq<Param>, id: ParamsId)
    ensures
        param_errors(syms, ps, id, ps.len() as int).len() == 0 <==> {
            &&& forall|i: int, j: int|
                0 <= i < j < ps.len() && (#[trigger] param_name(syms, ps[i])) is Some ==> param_name(syms, ps[i])
                    != #[trigger] param_name(syms, ps[j])
            &&& forall|i: int, j: int|
                0 <= i < j < ps.len() && (#[trigger] ps[i]).default is Some ==> (#[trigger] ps[j]).default is Some
        },
{
    lemma_param_errors_empty(syms, ps, id, ps.len() as int);
    let distinct = forall|i: int, j: int|
        0 <= i < j < ps.len() && (#[trigger] param_name(syms, ps[i])) is Some ==> param_name(syms, ps[i])
            != #[trigger] param_name(syms, ps[j]);
    let suffix = forall|i: int, j: int|
        0 <= i < j < ps.len() && (#[trigger] ps[i]).default is Some ==> (#[trigger] ps[j]).default is Some;
    if param_errors(syms, ps, id, ps.len() as int).len() == 0 {
        assert forall|i: int, j: int|
            0 <= i < j < ps.len() && (#[trigger] param_name(syms, ps[i])) is Some implies param_name(syms, ps[i])
                != #[trigger] param_name(syms, ps[j]) by {
            assert(param_step_errors(syms, ps, id, j).len() == 0);
            if param_name(syms, ps[i]) == param_name(syms, ps[j]) {
                let n = param_name(syms, ps[j])->0;
                assert(param_name_before(syms, ps, j, n));
            }
        }
        assert forall|i: int, j: int|
            0 <= i < j < ps.len() && (#[trigger] ps[i]).default is Some implies (#[trigger] ps[j]).default is Some by {
            assert(param_step_errors(syms, ps, id, j).len() == 0);
            lemma_first_default_before(ps, j);
        }
    }
    if distinct && suffix {
        assert forall|j: int| 0 <= j < ps.len() implies #[trigger] param_step_errors(syms, ps, id, j).len() == 0 by {
            lemma_first_default_before(ps, j);
            match param_name(syms, ps[j]) {
                Some(n) => {
                    if param_name_before(syms, ps, j, n) {
                        let i = choose|i: int| 0 <= i < j && #[trigger] param_name(syms, ps[i]) == Some(n);
                        assert(param_name(syms, ps[i]) != param_name(syms, ps[j]));
                    }
                },
                None => {},
            }
            match first_default_before(ps, j) {
                Some(d) => {
                    assert(ps[d].default is Some);
                },
                None => {},
            }
        }
    }
}

/// Arguments are valid against `n_params` parameters exactly when there
/// are no more of them than parameters, no two of them name the same
/// parameter, and every argument after a named one is named too.
pub proof fn lemma_validate_args_ok_iff(ts: Seq<ParamIndex>, id: SomeArgsId, params: ParamsId, n_params: int)
    ensures
        args_against_params_errors(ts, id, params, n_params).len() == 0 <==> {
            &&& ts.len() <= n_params
            &&& forall|i: int, j: int|
                0 <= i < j < ts.len() && (#[trigger] ts[i]) is Name ==> ts[i] != #[trigger] ts[j]
            &&& forall|i: int, j: int|
                0 <= i < j < ts.len() && (#[trigger] ts[i]) is Name ==> (#[trigger] ts[j]) is Name
        },
{
    lemma_arg_errors_empty(ts, id, ts.len() as int);
    let distinct = forall|i: int, j: int|
        0 <= i < j < ts.len() && (#[trigger] ts[i]) is Name ==> ts[i] != #[trigger] ts[j];
    let ordered = forall|i: int, j: int|
        0 <= i < j < ts.len() && (#[trigger] ts[i]) is Name ==> (#[trigger] ts[j]) is Name;
    if args_against_params_errors(ts, id, params, n_params).len() == 0 {
        assert(arg_errors(ts, id, ts.len() as int).len() == 0);
        assert forall|i: int, j: int|
            0 <= i < j < ts.len() && (#[trigger] ts[i]) is Name implies ts[i] != #[trigger] ts[j] by {
            assert(arg_step_errors(ts, id, j).len() == 0);
            if ts[i] == ts[j] {
                let n = ts[j]->Name_0;
                assert(arg_name_before(ts, j, n));
            }
        }
        assert forall|i: int, j: int|
            0 <= i < j < ts.len() && (#[trigger] ts[i]) is Name implies (#[trigger] ts[j]) is Name by {
            assert(arg_step_errors(ts, id, j).len() == 0);
            lemma_first_named_arg_before(ts, j);
        }
    }
    if ts.len() <= n_params && distinct && ordered {
        assert forall|j: int| 0 <= j < ts.len() implies #[trigger] arg_step_errors(ts, id, j).len() == 0 by {
            lemma_first_named_arg_before(ts, j);
            match ts[j] {
                ParamIndex::Name(n) => {
                    if arg_name_before(ts, j, n) {
                        let i = choose|i: int| 0 <= i < j && ts[i] == ParamIndex::Name(n);
                        assert(ts[i] != ts[j]);
                    }
                },
                ParamIndex::Position(_) => {},
            }
            match first_named_arg_before(ts, j) {
                Some(f) => {
                    assert(ts[f] is Name);
                },
                None => {},
            }
        }
        assert(arg_errors(ts, id, ts.len() as int).len() == 0);
    }
}

/// A filled slot targets the index of its parameter.
pub open spec fn slot_aligned<V>(syms: Seq<SymbolData>, ps: Seq<Param>, o: Option<(ParamIndex, V)>, i: int) -> bool {
    match o {
        Some(p) => p.0 == param_index_of(syms, ps, i),
        None => true,
    }
}

/// Placing arguments keeps one slot per parameter, each aligned.
proof fn lemma_reorder_pass_aligned<V>(
    syms: Seq<SymbolData>,
    ps: Seq<Param>,
    pid: ParamsId,
    aid: SomeArgsId,
    spread: Option<Spread>,
    ts: Seq<ParamIndex>,
    vs: Seq<V>,
    j: int,
)
    requires
        0 <= j <= ts.len() <= ps.len(),
    ensures
        reorder_pass(syms, ps, pid, aid, spread, ts, vs, j).0.len() == ps.len(),
        forall|i: int| 0 <= i < ps.len() ==> slot_aligned(syms, ps, #[trigger] reorder_pass(syms, ps, pid, aid, spread, ts, vs, j).0[i], i),
    decreases j,
{
    if j > 0 {
        lemma_reorder_pass_aligned(syms, ps, pid, aid, spread, ts, vs, j - 1);
        let prev = reorder_pass(syms, ps, pid, aid, spread, ts, vs, j - 1).0;
        let cur = reorder_pass(syms, ps, pid, aid, spread, ts, vs, j).0;
        let step = reorder_step(syms, ps, pid, aid, spread, ts[j - 1], vs[j - 1], j - 1, prev);
        assert(cur == step.0);
        match ts[j - 1] {
            ParamIndex::Name(n) => {
                lemma_first_named(syms, ps, n);
                match first_named(syms, ps, n) {
                    Some(x) => {
                        assert(param_index_of(syms, ps, x) == ParamIndex::Name(n));
                        assert forall|i: int| 0 <= i < ps.len() implies slot_aligned(syms, ps, #[trigger] cur[i], i) by {
                            assert(slot_aligned(syms, ps, prev[i], i));
                        }
                    },
                    None => {
                        assert(cur == prev);
                    },
                }
            },
            ParamIndex::Position(_) => {
                assert forall|i: int| 0 <= i < ps.len() implies slot_aligned(syms, ps, #[trigger] cur[i], i) by {
                    assert(slot_aligned(syms, ps, prev[i], i));
                }
            },
        }
    }
}

/// Filling keeps one slot per parameter, each aligned; without errors, the
/// first `k` slots are all filled.
proof fn lemma_fill_pass_aligned<V>(
    syms: Seq<SymbolData>,
    ps: Seq<Param>,
    pid: ParamsId,
    aid: SomeArgsId,
    fills: Seq<Option<V>>,
    res: Seq<Option<(ParamIndex, V)>>,
    k: int,
)
    requires
        0 <= k <= ps.len(),
        res.len() == ps.len(),
        forall|i: int| 0 <= i < ps.len() ==> slot_aligned(syms, ps, #[trigger] res[i], i),
    ensures
        fill_pass(syms, ps, pid, aid, fills, res, k).0.len() == ps.len(),
        forall|i: int| 0 <= i < ps.len() ==> slot_aligned(syms, ps, #[trigger] fill_pass(syms, ps, pid, aid, fills, res, k).0[i], i),
        fill_pass(syms, ps, pid, aid, fills, res, k).1.len() == 0 ==> forall|i: int|
            0 <= i < k ==> (#[trigger] fill_pass(syms, ps, pid, aid, fills, res, k).0[i]) is Some,
    decreases k,
{
    if k > 0 {
        lemma_fill_pass_aligned(syms, ps, pid, aid, fills, res, k - 1);
        let prev = fill_pass(syms, ps, pid, aid, fills, res, k - 1);
        let cur = fill_pass(syms, ps, pid, aid, fills, res, k);
        assert forall|i: int| 0 <= i < ps.len() implies slot_aligned(syms, ps, #[trigger] cur.0[i], i) by {
            assert(slot_aligned(syms, ps, prev.0[i], i));
        }
        if cur.1.len() == 0 {
            assert forall|i: int| 0 <= i < k implies (#[trigger] cur.0[i]) is Some by {
                if i < k - 1 {
                    assert(prev.0[i] is Some);
                }
            }
        }
    }
}

/// A reordering without errors gives every parameter an argument, and the
/// argument of each parameter targets that parameter's own index: its name
/// if it has one, else its position.
pub proof fn lemma_reorder_aligns<V>(
    syms: Seq<SymbolData>,
    ps: Seq<Param>,
    pid: ParamsId,
    aid: SomeArgsId,
    spread: Option<Spread>,
    ts: Seq<ParamIndex>,
    vs: Seq<V>,
    fills: Seq<Option<V>>,
)
    requires
        reorder_errors(syms, ps, pid, aid, spread, ts, vs, fills).len() == 0,
    ensures
        reorder_slots(syms, ps, pid, aid, spread, ts, vs, fills).len() == ps.len(),
        forall|i: int|
            0 <= i < ps.len() ==> ((#[trigger] reorder_slots(syms, ps, pid, aid, spread, ts, vs, fills)[i]) matches Some(p)
                && p.0 == param_index_of(syms, ps, i)),
{
    lemma_validate_args_ok_iff(ts, aid, pid, ps.len() as int);
    lemma_reorder_pass_aligned(syms, ps, pid, aid, spread, ts, vs, ts.len() as int);
    let placed = reorder_pass(syms, ps, pid, aid, spread, ts, vs, ts.len() as int).0;
    lemma_fill_pass_aligned(syms, ps, pid, aid, fills, placed, ps.len() as int);
    let slots = reorder_slots(syms, ps, pid, aid, spread, ts, vs, fills);
    assert forall|i: int| 0 <= i < ps.len() implies ((#[trigger] slots[i]) matches Some(p) && p.0 == param_index_of(syms, ps, i)) by {
        assert(slot_aligned(syms, ps, slots[i], i));
        assert(slots[i] is Some);
    }
}

/// Operations that validate parameters and arguments.
pub struct ParamOps;

impl ParamOps {
    /// The parameter operations.
    pub fn new() -> (r: Self) {
        ParamOps
    }

    /// Whether some parameter before position `k` of `ps` has the name `n`.
    fn param_name_seen(tir: &Tir, ps: &Vec<Param>, k: usize, n: Identifier) -> (r: bool)
        requires
            k <= ps@.len(),
        ensures
            r == param_name_before(tir.symbols@, ps@, k as int, n),
    {
        let mut i: usize = 0;
        while i < k
            invariant
                i <= k <= ps@.len(),
                forall|m: int| 0 <= m < i ==> #[trigger] param_name(tir.symbols@, ps@[m]) != Some(n),
            decreases k - i,
        {
            if tir.ident_of(ps[i].name) == Some(n) {
                assert(param_name(tir.symbols@, ps@[i as int]) == Some(n));
                return true;
            }
            i = i + 1;
        }
        false
    }

    /// Validate the given parameters. They are valid when no two parameters
    /// share a name, and the parameters with defaults come after all those
    /// without. Otherwise all the errors are returned, in order.
    pub fn validate_params(&self, tir: &Tir, params_id: ParamsId) -> (r: Result<(), Vec<ParamError>>)
        requires
            has_kind(tir.nodes@, params_id.0, NodeKind::Params),
        ensures
            outcome_is(
                r,
                param_errors(
                    tir.symbols@,
                    params_at(tir.nodes@, params_id),
                    params_id,
                    params_at(tir.nodes@, params_id).len() as int,
                ),
            ),
    {
        let ps = tir.params_of(params_id);
        let ghost syms = tir.symbols@;
        let mut errors: Vec<ParamError> = Vec::new();
        let mut found_default: Option<usize> = None;
        let mut k: usize = 0;
        while k < ps.len()
            invariant
                k <= ps@.len(),
                syms == tir.symbols@,
                errors@ == param_errors(syms, ps@, params_id, k as int),
                match found_default {
                    Some(d) => first_default_before(ps@, k as int) == Some(d as int),
                    None => first_default_before(ps@, k as int) is None,
                },
            decreases ps@.len() - k,
        {
            let here = ParamId(params_id, k);
            let ghost before = errors@;
            match tir.ident_of(ps[k].name) {
                Some(n) => {
                    if Self::param_name_seen(tir, &ps, k, n) {
                        errors.push(ParamError::DuplicateParam { first: here, second: here });
                    }
                },
                None => {},
            }
            match found_default {
                Some(d) => {
                    if ps[k].default.is_none() {
                        errors.push(ParamError::RequiredParamAfterDefaultParam { first_default: ParamId(params_id, d), next_required: here });
                    }
                },
                None => {
                    if ps[k].default.is_some() {
                        found_default = Some(k);
                    }
                },
            }
            assert(errors@ == before + param_step_errors(syms, ps@, params_id, k as int));
            k = k + 1;
        }
        if errors.len() == 0 {
            Ok(())
        } else {
            Err(errors)
        }
    }
    /// Whether some argument before position `j` of `ts` targets the name `n`.
    fn arg_name_seen(ts: &Vec<ParamIndex>, j: usize, n: Identifier) -> (r: bool)
        requires
            j <= ts@.len(),
        ensures
            r == arg_name_before(ts@, j as int, n),
    {
        let mut i: usize = 0;
        while i < j
            invariant
                i <= j <= ts@.len(),
                forall|m: int| 0 <= m < i ==> ts@[m] != ParamIndex::Name(n),
            decreases j - i,
        {
            if ts[i] == ParamIndex::Name(n) {
                return true;
            }
            i = i + 1;
        }
        false
    }

    /// Validate the given arguments against the given parameters. They are
    /// valid when there are no more arguments than parameters, no two
    /// arguments name the same parameter, and the named arguments come after
    /// all the positional ones. Otherwise all the errors are returned, in
    /// order.
    pub fn validate_args_against_params(&self, tir: &Tir, args_id: SomeArgsId, params_id: ParamsId) -> (r: Result<(), Vec<ParamError>>)
        requires
            some_args_ok(tir.nodes@, args_id),
            has_kind(tir.nodes@, params_id.0, NodeKind::Params),
        ensures
            outcome_is(
                r,
                args_against_params_errors(
                    arg_targets(tir.nodes@, args_id),
                    args_id,
                    params_id,
                    params_at(tir.nodes@, params_id).len() as int,
                ),
            ),
    {
        let ts = tir.arg_targets_of(args_id);
        let n_params = tir.params_of(params_id).len();
        let mut errors: Vec<ParamError> = Vec::new();
        if ts.len() > n_params {
            errors.push(ParamError::TooManyArgs { expected: params_id, got: args_id });
        }
        let ghost head = errors@;
        let mut found_named: Option<usize> = None;
        let mut j: usize = 0;
        while j < ts.len()
            invariant
                j <= ts@.len(),
                errors@ == head + arg_errors(ts@, args_id, j as int),
                match found_named {
                    Some(f) => first_named_arg_before(ts@, j as int) == Some(f as int),
                    None => first_named_arg_before(ts@, j as int) is None,
                },
            decreases ts@.len() - j,
        {
            let here = SomeArgId(args_id, j);
            let ghost before = errors@;
            match ts[j] {
                ParamIndex::Name(n) => {
                    if Self::arg_name_seen(&ts, j, n) {
                        errors.push(ParamError::DuplicateArg { first: here, second: here });
                    }
                },
                ParamIndex::Position(_) => {},
            }
            match found_named {
                Some(f) => {
                    if matches!(ts[j], ParamIndex::Position(_)) {
                        errors.push(ParamError::PositionalArgAfterNamedArg { first_named: SomeArgId(args_id, f), next_positional: here });
                    }
                },
                None => {
                    if matches!(ts[j], ParamIndex::Name(_)) {
                        found_named = Some(j);
                    }
                },
            }
            assert(errors@ == before + arg_step_errors(ts@, args_id, j as int));
            assert(head + arg_errors(ts@, args_id, j + 1) == before + arg_step_errors(ts@, args_id, j as int));
            j = j + 1;
        }
        if errors.len() == 0 {
            Ok(())
        } else {
            Err(errors)
        }
    }
    /// The index of the parameter at position `i` of `ps`.
    fn param_index(tir: &Tir, ps: &Vec<Param>, i: usize) -> (r: ParamIndex)
        requires
            i < ps@.len(),
        ensures
            r == param_index_of(tir.symbols@, ps@, i as int),
    {
        match tir.ident_of(ps[i].name) {
            Some(n) => ParamIndex::Name(n),
            None => ParamIndex::Position(i),
        }
    }

    /// Empty slots, one per parameter.
    fn empty_slots<V: Copy>(n: usize) -> (r: Vec<Option<(ParamIndex, V)>>)
        ensures
            r@ == Seq::new(n as nat, |i: int| None::<(ParamIndex, V)>),
    {
        let mut res: Vec<Option<(ParamIndex, V)>> = Vec::new();
        let mut i: usize = 0;
        while i < n
            invariant
                i <= n,
                res@ =~= Seq::new(i as nat, |k: int| None::<(ParamIndex, V)>),
            decreases n - i,
        {
            res.push(None);
            i = i + 1;
        }
        res
    }

    /// Validate the given arguments against the given parameters and
    /// reorder them to match the parameters: each argument moves to the slot
    /// of the parameter it targets, and the parameters that no argument
    /// targets take their default values. The new argument list is added to
    /// the store; the given lists are left as they are. The parameters are
    /// expected to be valid already.
    pub fn validate_and_reorder_args_against_params(&self, tir: &mut Tir, args_id: ArgsId, params_id: ParamsId) -> (r: Result<ArgsId, Vec<ParamError>>)
        requires
            old(tir).inv(),
            has_kind(old(tir).nodes@, args_id.0, NodeKind::Args),
            has_kind(old(tir).nodes@, params_id.0, NodeKind::Params),
            args_against_params_errors(
                arg_targets(old(tir).nodes@, SomeArgsId::Args(args_id)),
                SomeArgsId::Args(args_id),
                params_id,
                params_at(old(tir).nodes@, params_id).len() as int,
            ).len() == 0 ==> positions_in_place(arg_targets(old(tir).nodes@, SomeArgsId::Args(args_id))),
        ensures
            ({
                let t = old(tir).nodes@;
                let syms = old(tir).symbols@;
                let ps = params_at(t, params_id);
                let aid = SomeArgsId::Args(args_id);
                let ts = arg_targets(t, aid);
                let vs = args_at(t, args_id).map_values(|a: Arg| a.value);
                &&& outcome_is(r, reorder_errors(syms, ps, params_id, aid, None, ts, vs, param_defaults(ps)))
                &&& final(tir).symbols == old(tir).symbols
                &&& final(tir).inv()
                &&& match r {
                    Ok(id) => {
                        &&& id.0 == t.len()
                        &&& final(tir).nodes@.len() == t.len() + 1
                        &&& extends(final(tir).nodes@, t)
                        &&& has_kind(final(tir).nodes@, id.0, NodeKind::Args)
                        &&& args_at(final(tir).nodes@, id) == slots_to_args(
                            reorder_slots(syms, ps, params_id, aid, None, ts, vs, param_defaults(ps)),
                        )
                    },
                    Err(_) => final(tir).nodes@ == t,
                }
            }),
    {
        let aid = SomeArgsId::Args(args_id);
        match self.validate_args_against_params(tir, aid, params_id) {
            Err(e) => {
                return Err(e);
            },
            Ok(()) => {},
        }
        let ps = tir.params_of(params_id);
        let args = tir.args_of(args_id);
        let ghost t = tir.nodes@;
        let ghost syms = tir.symbols@;
        let ghost ts = arg_targets(t, aid);
        let ghost vs = args_at(t, args_id).map_values(|a: Arg| a.value);
        let ghost fills = param_defaults(ps@);
        assert(ts =~= args@.map_values(|a: Arg| a.target));
        proof {
            lemma_arg_errors_empty(ts, aid, ts.len() as int);
        }
        let mut res: Vec<Option<(ParamIndex, TermId)>> = Self::empty_slots(ps.len());
        let mut errors: Vec<ParamError> = Vec::new();
        let mut j: usize = 0;
        assert(res@ =~= reorder_pass(syms, ps@, params_id, aid, None, ts, vs, 0).0);
        while j < args.len()
            invariant
                j <= args@.len() <= ps@.len(),
                t == tir.nodes@,
                syms == tir.symbols@,
                tir.inv(),
                args@ == args_at(t, args_id),
                ps@ == params_at(t, params_id),
                has_kind(t, args_id.0, NodeKind::Args),
                has_kind(t, params_id.0, NodeKind::Params),
                ts == args@.map_values(|a: Arg| a.target),
                vs == args@.map_values(|a: Arg| a.value),
                arg_errors(ts, aid, ts.len() as int).len() == 0,
                positions_in_place(ts),
                res@.len() == ps@.len(),
                (res@, errors@) == reorder_pass(syms, ps@, params_id, aid, None, ts, vs, j as int),
                forall|i: int| 0 <= i < ps@.len() ==> slot_term_ok(t, #[trigger] res@[i]),
                forall|i: int| j <= i < ps@.len() && (#[trigger] res@[i]) is Some ==> exists|k: int| 0 <= k < j && #[trigger] names_slot(syms, ps@, ts[k], i),
            decreases args@.len() - j,
        {
            let a = args[j];
            let ghost prev = res@;
            proof {
                lemma_arg_value_term(t, args_id, j as int);
                assert(ts[j as int] == a.target);
                assert(vs[j as int] == a.value);
            }
            match a.target {
                ParamIndex::Position(_) => {
                    let pi = Self::param_index(tir, &ps, j);
                    res.set(j, Some((pi, a.value)));
                    proof {
                        assert forall|i: int| j + 1 <= i < ps@.len() && (#[trigger] res@[i]) is Some implies exists|k: int| 0 <= k < j + 1 && #[trigger] names_slot(syms, ps@, ts[k], i) by {
                            assert(res@[i] == prev[i]);
                        }
                    }
                },
                ParamIndex::Name(n) => {
                    match tir.position_of_name(&ps, n) {
                        Some(i) => {
                            proof {
                                lemma_first_named(syms, ps@, n);
                            }
                            if res[i].is_some() {
                                proof {
                                    if i >= j {
                                        let k = choose|k: int| 0 <= k < j && #[trigger] names_slot(syms, ps@, ts[k], i as int);
                                        let m = ts[k]->Name_0;
                                        lemma_first_named(syms, ps@, m);
                                        assert(ts[k] == ParamIndex::Name(n));
                                        lemma_valid_args_distinct(ts, aid, j as int, n);
                                    }
                                    assert(j != i);
                                }
                                errors.push(ParamError::DuplicateArg { first: SomeArgId(aid, i), second: SomeArgId(aid, j) });
                            } else {
                                res.set(i, Some((a.target, a.value)));
                                proof {
                                    assert(names_slot(syms, ps@, ts[j as int], i as int));
                                    assert forall|x: int| j + 1 <= x < ps@.len() && (#[trigger] res@[x]) is Some implies exists|k: int| 0 <= k < j + 1 && #[trigger] names_slot(syms, ps@, ts[k], x) by {
                                        if x != i {
                                            assert(res@[x] == prev[x]);
                                        }
                                    }
                                }
                            }
                        },
                        None => {
                            errors.push(ParamError::ArgNameNotFoundInParams { arg: SomeArgId(aid, j), params: params_id });
                        },
                    }
                },
            }
            j = j + 1;
        }
        if errors.len() > 0 {
            return Err(errors);
        }
        let ghost placed = res@;
        let mut i: usize = 0;
        assert(res@ == fill_pass(syms, ps@, params_id, aid, fills, placed, 0).0);
        while i < ps.len()
            invariant
                i <= ps@.len(),
                t == tir.nodes@,
                syms == tir.symbols@,
                tir.inv(),
                ps@ == params_at(t, params_id),
                has_kind(t, params_id.0, NodeKind::Params),
                fills == param_defaults(ps@),
                res@.len() == ps@.len(),
                (res@, errors@) == fill_pass(syms, ps@, params_id, aid, fills, placed, i as int),
                forall|x: int| 0 <= x < ps@.len() ==> slot_term_ok(t, #[trigger] res@[x]),
                forall|x: int| 0 <= x < i ==> (#[trigger] res@[x]) is Some || errors@.len() > 0,
            decreases ps@.len() - i,
        {
            let ghost prev = res@;
            let ghost prev_errs = errors@;
            if res[i].is_none() {
                match ps[i].default {
                    Some(d) => {
                        proof {
                            lemma_param_default_term(t, params_id, i as int);
                        }
                        let pi = Self::param_index(tir, &ps, i);
                        res.set(i, Some((pi, d)));
                    },
                    None => {
                        errors.push(ParamError::RequiredParamNotFoundInArgs { param: ParamId(params_id, i), args: aid });
                    },
                }
            }
            proof {
                assert forall|x: int| 0 <= x < i + 1 implies (#[trigger] res@[x]) is Some || errors@.len() > 0 by {
                    if x < i {
                        assert(prev[x] is Some || prev_errs.len() > 0);
                    }
                }
            }
            i = i + 1;
        }
        if errors.len() > 0 {
            return Err(errors);
        }
        let ghost slots = res@;
        let mut out: Vec<Arg> = Vec::new();
        let mut k: usize = 0;
        while k < res.len()
            invariant
                k <= res@.len(),
                res@ == slots,
                t == tir.nodes@,
                forall|x: int| 0 <= x < res@.len() ==> (#[trigger] res@[x]) is Some,
                forall|x: int| 0 <= x < res@.len() ==> slot_term_ok(t, #[trigger] res@[x]),
                out@ == slots_to_args(slots).take(k as int),
            decreases res@.len() - k,
        {
            match res[k] {
                Some(p) => {
                    out.push(Arg { target: p.0, value: p.1 });
                },
                None => {
                    proof {
                        assert(false);
                    }
                },
            }
            assert(slots_to_args(slots).take(k + 1) =~= out@);
            k = k + 1;
        }
        assert(slots_to_args(slots).take(k as int) =~= slots_to_args(slots));
        let ghost n = NodeData::Args(out);
        proof {
            assert forall|x: int| 0 <= x < children(n).len() implies {
                &&& (#[trigger] children(n)[x]) < t.len()
                &&& kind_of(t[children(n)[x] as int]) == child_kinds(n)[x]
            } by {
                assert(children(n)[x] == out@[x].value.0);
                assert(slots[x] is Some);
            }
        }
        let id = tir.push_node(NodeData::Args(out));
        Ok(ArgsId(id))
    }
    /// Validate the given pattern arguments against the given parameters and
    /// reorder them to match the parameters: each argument moves to the slot
    /// of the parameter it targets. With a spread, the parameters that no
    /// argument targets are captured; without one, they are missing. A
    /// positional argument right after the spread is an error. The new list
    /// is added to the store; the given lists are left as they are. The
    /// parameters are expected to be valid already, and the given arguments
    /// to hold no captures.
    pub fn validate_and_reorder_pat_args_against_params(&self, tir: &mut Tir, args_id: PatArgsId, spread: Option<Spread>, params_id: ParamsId) -> (r: Result<PatArgsId, Vec<ParamError>>)
        requires
            old(tir).inv(),
            has_kind(old(tir).nodes@, args_id.0, NodeKind::PatArgs),
            has_kind(old(tir).nodes@, params_id.0, NodeKind::Params),
            args_against_params_errors(
                arg_targets(old(tir).nodes@, SomeArgsId::PatArgs(args_id)),
                SomeArgsId::PatArgs(args_id),
                params_id,
                params_at(old(tir).nodes@, params_id).len() as int,
            ).len() == 0 ==> positions_in_place(arg_targets(old(tir).nodes@, SomeArgsId::PatArgs(args_id))),
        ensures
            ({
                let t = old(tir).nodes@;
                let syms = old(tir).symbols@;
                let ps = params_at(t, params_id);
                let aid = SomeArgsId::PatArgs(args_id);
                let ts = arg_targets(t, aid);
                let vs = pat_args_at(t, args_id).map_values(|a: PatArg| a.pat);
                &&& outcome_is(r, reorder_errors(syms, ps, params_id, aid, spread, ts, vs, spread_fills(ps.len(), spread)))
                &&& final(tir).symbols == old(tir).symbols
                &&& final(tir).inv()
                &&& match r {
                    Ok(id) => {
                        &&& id.0 == t.len()
                        &&& final(tir).nodes@.len() == t.len() + 1
                        &&& extends(final(tir).nodes@, t)
                        &&& has_kind(final(tir).nodes@, id.0, NodeKind::PatArgs)
                        &&& pat_args_at(final(tir).nodes@, id) == slots_to_pat_args(
                            reorder_slots(syms, ps, params_id, aid, spread, ts, vs, spread_fills(ps.len(), spread)),
                        )
                    },
                    Err(_) => final(tir).nodes@ == t,
                }
            }),
    {
        let aid = SomeArgsId::PatArgs(args_id);
        match self.validate_args_against_params(tir, aid, params_id) {
            Err(e) => {
                return Err(e);
            },
            Ok(()) => {},
        }
        let ps = tir.params_of(params_id);
        let args = tir.pat_args_of(args_id);
        let ghost t = tir.nodes@;
        let ghost syms = tir.symbols@;
        let ghost ts = arg_targets(t, aid);
        let ghost vs = pat_args_at(t, args_id).map_values(|a: PatArg| a.pat);
        let ghost fills = spread_fills(ps@.len(), spread);
        assert(ts =~= args@.map_values(|a: PatArg| a.target));
        proof {
            lemma_arg_errors_empty(ts, aid, ts.len() as int);
        }
        let mut res: Vec<Option<(ParamIndex, PatOrCapture)>> = Self::empty_slots(ps.len());
        let mut errors: Vec<ParamError> = Vec::new();
        let mut j: usize = 0;
        assert(res@ =~= reorder_pass(syms, ps@, params_id, aid, spread, ts, vs, 0).0);
        while j < args.len()
            invariant
                j <= args@.len() <= ps@.len(),
                t == tir.nodes@,
                syms == tir.symbols@,
                tir.inv(),
                args@ == pat_args_at(t, args_id),
                ps@ == params_at(t, params_id),
                has_kind(t, args_id.0, NodeKind::PatArgs),
                has_kind(t, params_id.0, NodeKind::Params),
                ts == args@.map_values(|a: PatArg| a.target),
                vs == args@.map_values(|a: PatArg| a.pat),
                arg_errors(ts, aid, ts.len() as int).len() == 0,
                positions_in_place(ts),
                res@.len() == ps@.len(),
                (res@, errors@) == reorder_pass(syms, ps@, params_id, aid, spread, ts, vs, j as int),
                forall|i: int| 0 <= i < ps@.len() ==> pat_slot_ok(t, #[trigger] res@[i]),
                forall|i: int| j <= i < ps@.len() && (#[trigger] res@[i]) is Some ==> exists|k: int| 0 <= k < j && #[trigger] names_slot(syms, ps@, ts[k], i),
            decreases args@.len() - j,
        {
            let a = args[j];
            let ghost prev = res@;
            proof {
                if a.pat is Pat {
                    lemma_pat_arg_pat(t, args_id, j as int);
                }
                assert(ts[j as int] == a.target);
                assert(vs[j as int] == a.pat);
            }
            match a.target {
                ParamIndex::Position(_) => {
                    match spread {
                        Some(sp) => {
                            if j != 0 && sp.index == j - 1 {
                                errors.push(ParamError::SpreadBeforePositionalArg { next_positional: SomeArgId(aid, j) });
                            }
                        },
                        None => {},
                    }
                    let pi = Self::param_index(tir, &ps, j);
                    res.set(j, Some((pi, a.pat)));
                    proof {
                        assert forall|i: int| j + 1 <= i < ps@.len() && (#[trigger] res@[i]) is Some implies exists|k: int| 0 <= k < j + 1 && #[trigger] names_slot(syms, ps@, ts[k], i) by {
                            assert(res@[i] == prev[i]);
                        }
                    }
                },
                ParamIndex::Name(n) => {
                    match tir.position_of_name(&ps, n) {
                        Some(i) => {
                            proof {
                                lemma_first_named(syms, ps@, n);
                            }
                            if res[i].is_some() {
                                proof {
                                    if i >= j {
                                        let k = choose|k: int| 0 <= k < j && #[trigger] names_slot(syms, ps@, ts[k], i as int);
                                        let m = ts[k]->Name_0;
                                        lemma_first_named(syms, ps@, m);
                                        assert(ts[k] == ParamIndex::Name(n));
                                        lemma_valid_args_distinct(ts, aid, j as int, n);
                                    }
                                    assert(j != i);
                                }
                                errors.push(ParamError::DuplicateArg { first: SomeArgId(aid, i), second: SomeArgId(aid, j) });
                            } else {
                                res.set(i, Some((a.target, a.pat)));
                                proof {
                                    assert(names_slot(syms, ps@, ts[j as int], i as int));
                                    assert forall|x: int| j + 1 <= x < ps@.len() && (#[trigger] res@[x]) is Some implies exists|k: int| 0 <= k < j + 1 && #[trigger] names_slot(syms, ps@, ts[k], x) by {
                                        if x != i {
                                            assert(res@[x] == prev[x]);
                                        }
                                    }
                                }
                            }
                        },
                        None => {
                            errors.push(ParamError::ArgNameNotFoundInParams { arg: SomeArgId(aid, j), params: params_id });
                        },
                    }
                },
            }
            j = j + 1;
        }
        if errors.len() > 0 {
            return Err(errors);
        }
        let ghost placed = res@;
        let mut i: usize = 0;
        assert(res@ == fill_pass(syms, ps@, params_id, aid, fills, placed, 0).0);
        while i < ps.len()
            invariant
                i <= ps@.len(),
                t == tir.nodes@,
                syms == tir.symbols@,
                tir.inv(),
                ps@ == params_at(t, params_id),
                has_kind(t, params_id.0, NodeKind::Params),
                fills == spread_fills(ps@.len(), spread),
                res@.len() == ps@.len(),
                (res@, errors@) == fill_pass(syms, ps@, params_id, aid, fills, placed, i as int),
                forall|x: int| 0 <= x < ps@.len() ==> pat_slot_ok(t, #[trigger] res@[x]),
                forall|x: int| 0 <= x < i ==> (#[trigger] res@[x]) is Some || errors@.len() > 0,
            decreases ps@.len() - i,
        {
            let ghost prev = res@;
            let ghost prev_errs = errors@;
            if res[i].is_none() {
                if spread.is_some() {
                    let pi = Self::param_index(tir, &ps, i);
                    res.set(i, Some((pi, PatOrCapture::Capture)));
                } else {
                    errors.push(ParamError::RequiredParamNotFoundInArgs { param: ParamId(params_id, i), args: aid });
                }
            }
            proof {
                assert forall|x: int| 0 <= x < i + 1 implies (#[trigger] res@[x]) is Some || errors@.len() > 0 by {
                    if x < i {
                        assert(prev[x] is Some || prev_errs.len() > 0);
                    }
                }
            }
            i = i + 1;
        }
        if errors.len() > 0 {
            return Err(errors);
        }
        let ghost slots = res@;
        let mut out: Vec<PatArg> = Vec::new();
        let mut k: usize = 0;
        while k < res.len()
            invariant
                k <= res@.len(),
                res@ == slots,
                t == tir.nodes@,
                forall|x: int| 0 <= x < res@.len() ==> (#[trigger] res@[x]) is Some,
                forall|x: int| 0 <= x < res@.len() ==> pat_slot_ok(t, #[trigger] res@[x]),
                out@ == slots_to_pat_args(slots).take(k as int),
            decreases res@.len() - k,
        {
            match res[k] {
                Some(p) => {
                    out.push(PatArg { target: p.0, pat: p.1 });
                },
                None => {
                    proof {
                        assert(false);
                    }
                },
            }
            assert(slots_to_pat_args(slots).take(k + 1) =~= out@);
            k = k + 1;
        }
        assert(slots_to_pat_args(slots).take(k as int) =~= slots_to_pat_args(slots));
        let ghost n = NodeData::PatArgs(out);
        proof {
            let ks = out@.map_values(|a: PatArg| pat_arg_kids(a));
            let kinds = out@.map_values(|a: PatArg| pat_arg_kinds(a));
            assert forall|e: int, q: int| 0 <= e < ks.len() && 0 <= q < ks[e].len() implies (#[trigger] ks[e][q]) < t.len()
                && kind_of(t[ks[e][q] as int]) == kinds[e][q] by {
                assert(slots[e] is Some);
                assert(pat_slot_ok(t, slots[e]));
            }
            lemma_flat_ok(t, t.len() as int, ks, kinds);
            assert(children(n) == ks.flatten_alt());
            assert(child_kinds(n) == kinds.flatten_alt());
        }
        let id = tir.push_node(NodeData::PatArgs(out));
        Ok(PatArgsId(id))
    }
}

} // verus!

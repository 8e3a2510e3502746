//! Parameters and arguments: reading them from the store, creating them,
//! and finding parameters by index.

use vstd::prelude::*;

use crate::ir::Identifier;
use crate::tir::store::{
    children, child_kinds, extends, has_kind, kind_of, lemma_flat_index, lemma_flat_ok, node_ok,
    param_kids, param_kinds, pat_arg_kids, pat_arg_kinds, wf, Term, Arg, ArgsId, CtorDefId, DataDefId, FnDefId, FnTy, NodeData,
    NodeKind, Param, ParamIndex, ParamsId, PatArg, PatArgsId, PatOrCapture, SymbolData, SymbolId,
    TermId, Tir, TyId,
};

verus! {

/// A tuple type, by its parameters.
#[derive(Debug, Clone, Copy, PartialEq, Eq, Structural)]
pub struct TupleTy {
    pub data: ParamsId,
}

/// The data of a parameter to create.
#[derive(Debug, Clone, Copy, PartialEq, Eq, Structural)]
pub struct ParamData {
    pub name: SymbolId,
    pub ty: TyId,
    pub default: Option<TermId>,
}

/// The data of an argument to create.
#[derive(Debug, Clone, Copy, PartialEq, Eq, Structural)]
pub struct ArgData {
    pub target: ParamIndex,
    pub value: TermId,
}

/// The data of a pattern argument to create.
#[derive(Debug, Clone, Copy, PartialEq, Eq, Structural)]
pub struct PatArgData {
    pub target: ParamIndex,
    pub pat: PatOrCapture,
}

/// A parameter, by its list and position.
#[derive(Debug, Clone, Copy, PartialEq, Eq, Structural)]
pub struct ParamId(pub ParamsId, pub usize);

/// Arguments or pattern arguments.
#[derive(Debug, Clone, Copy, PartialEq, Eq, Structural)]
pub enum SomeArgsId {
    Args(ArgsId),
    PatArgs(PatArgsId),
}

/// An argument or pattern argument, by its list and position.
#[derive(Debug, Clone, Copy, PartialEq, Eq, Structural)]
pub struct SomeArgId(pub SomeArgsId, pub usize);

/// Some kind of parameters or arguments.
#[derive(Debug, Clone, Copy, PartialEq, Eq, Structural)]
pub enum SomeParamsOrArgsId {
    Params(ParamsId),
    PatArgs(PatArgsId),
    Args(ArgsId),
}

/// All the places a parameter can come from.
#[derive(Debug, Clone, Copy, PartialEq, Eq, Structural)]
pub enum ParamOrigin {
    /// A parameter in a function definition.
    Fn(FnDefId),
    /// A parameter in a function type.
    FnTy(FnTy),
    /// A parameter in a tuple type.
    TupleTy(TupleTy),
    /// A parameter in a constructor.
    Ctor(CtorDefId),
    /// A parameter in a data definition.
    Data(DataDefId),
}

impl ParamOrigin {
    /// A constant parameter is one that cannot depend on non-constant
    /// bindings: those of constructors and data definitions.
    pub fn is_constant(&self) -> (r: bool)
        ensures
            r == (*self is Ctor || *self is Data),
    {
        match self {
            ParamOrigin::Fn(_) | ParamOrigin::FnTy(_) | ParamOrigin::TupleTy(_) => false,
            ParamOrigin::Ctor(_) | ParamOrigin::Data(_) => true,
        }
    }
}

/// The parameters stored at `id`.
pub open spec fn params_at(t: Seq<NodeData>, id: ParamsId) -> Seq<Param> {
    match t[id.0 as int] {
        NodeData::Params(v) => v@,
        _ => Seq::empty(),
    }
}

/// The arguments stored at `id`.
pub open spec fn args_at(t: Seq<NodeData>, id: ArgsId) -> Seq<Arg> {
    match t[id.0 as int] {
        NodeData::Args(v) => v@,
        _ => Seq::empty(),
    }
}

/// The pattern arguments stored at `id`.
pub open spec fn pat_args_at(t: Seq<NodeData>, id: PatArgsId) -> Seq<PatArg> {
    match t[id.0 as int] {
        NodeData::PatArgs(v) => v@,
        _ => Seq::empty(),
    }
}

/// The identifier of a symbol, if it has one.
pub open spec fn symbol_ident(syms: Seq<SymbolData>, s: SymbolId) -> Option<Identifier> {
    if s.0 < syms.len() {
        syms[s.0 as int].name
    } else {
        None
    }
}

/// The targets of the arguments (or pattern arguments) at `id`.
pub open spec fn arg_targets(t: Seq<NodeData>, id: SomeArgsId) -> Seq<ParamIndex> {
    match id {
        SomeArgsId::Args(a) => args_at(t, a).map_values(|x: Arg| x.target),
        SomeArgsId::PatArgs(a) => pat_args_at(t, a).map_values(|x: PatArg| x.target),
    }
}

/// `id` refers to arguments (or pattern arguments) of the store.
pub open spec fn some_args_ok(t: Seq<NodeData>, id: SomeArgsId) -> bool {
    match id {
        SomeArgsId::Args(a) => has_kind(t, a.0, NodeKind::Args),
        SomeArgsId::PatArgs(a) => has_kind(t, a.0, NodeKind::PatArgs),
    }
}

/// The values of stored arguments are stored terms.
pub proof fn lemma_arg_value_term(t: Seq<NodeData>, id: ArgsId, k: int)
    requires
        wf(t),
        has_kind(t, id.0, NodeKind::Args),
        0 <= k < args_at(t, id).len(),
    ensures
        has_kind(t, args_at(t, id)[k].value.0, NodeKind::Term),
{
    let n = t[id.0 as int];
    assert(node_ok(t, id.0 as int, n));
    assert(children(n)[k] == args_at(t, id)[k].value.0);
}

/// The default values of stored parameters are stored terms.
pub proof fn lemma_param_default_term(t: Seq<NodeData>, id: ParamsId, e: int)
    requires
        wf(t),
        has_kind(t, id.0, NodeKind::Params),
        0 <= e < params_at(t, id).len(),
        params_at(t, id)[e].default is Some,
    ensures
        params_at(t, id)[e].default matches Some(d) && has_kind(t, d.0, NodeKind::Term),
{
    let n = t[id.0 as int];
    let ps = params_at(t, id);
    assert(node_ok(t, id.0 as int, n));
    let ks = ps.map_values(|p: Param| param_kids(p));
    let kinds = ps.map_values(|p: Param| param_kinds(p));
    assert(children(n) == ks.flatten_alt());
    assert(child_kinds(n) == kinds.flatten_alt());
    lemma_flat_index(ks, kinds, e, 1);
    let m = choose|m: int|
        0 <= m < ks.flatten_alt().len() && ks.flatten_alt()[m] == ks[e][1]
            && kinds.flatten_alt()[m] == kinds[e][1];
    assert(children(n)[m] == ks[e][1]);
}

/// The type and default value of a stored parameter are stored terms.
pub proof fn lemma_param_parts(t: Seq<NodeData>, id: ParamsId, e: int)
    requires
        wf(t),
        has_kind(t, id.0, NodeKind::Params),
        0 <= e < params_at(t, id).len(),
    ensures
        param_ok(t, params_at(t, id)[e]),
{
    let n = t[id.0 as int];
    let ps = params_at(t, id);
    assert(node_ok(t, id.0 as int, n));
    let ks = ps.map_values(|p: Param| param_kids(p));
    let kinds = ps.map_values(|p: Param| param_kinds(p));
    assert(children(n) == ks.flatten_alt());
    assert(child_kinds(n) == kinds.flatten_alt());
    lemma_flat_index(ks, kinds, e, 0);
    let m = choose|m: int|
        0 <= m < ks.flatten_alt().len() && ks.flatten_alt()[m] == ks[e][0]
            && kinds.flatten_alt()[m] == kinds[e][0];
    assert(children(n)[m] == ks[e][0]);
    if ps[e].default is Some {
        lemma_param_default_term(t, id, e);
    }
}

/// The patterns of stored pattern arguments are stored patterns.
pub proof fn lemma_pat_arg_pat(t: Seq<NodeData>, id: PatArgsId, e: int)
    requires
        wf(t),
        has_kind(t, id.0, NodeKind::PatArgs),
        0 <= e < pat_args_at(t, id).len(),
        pat_args_at(t, id)[e].pat is Pat,
    ensures
        pat_args_at(t, id)[e].pat matches PatOrCapture::Pat(p) && has_kind(t, p.0, NodeKind::Pat),
{
    let n = t[id.0 as int];
    let ps = pat_args_at(t, id);
    assert(node_ok(t, id.0 as int, n));
    let ks = ps.map_values(|a: PatArg| pat_arg_kids(a));
    let kinds = ps.map_values(|a: PatArg| pat_arg_kinds(a));
    assert(children(n) == ks.flatten_alt());
    assert(child_kinds(n) == kinds.flatten_alt());
    lemma_flat_index(ks, kinds, e, 0);
    let m = choose|m: int|
        0 <= m < ks.flatten_alt().len() && ks.flatten_alt()[m] == ks[e][0]
            && kinds.flatten_alt()[m] == kinds[e][0];
    assert(children(n)[m] == ks[e][0]);
}

impl Tir {
    /// The parameters at `id`.
    pub fn params_of(&self, id: ParamsId) -> (r: Vec<Param>)
        requires
            has_kind(self.nodes@, id.0, NodeKind::Params),
        ensures
            r@ == params_at(self.nodes@, id),
    {
        let mut out: Vec<Param> = Vec::new();
        match &self.nodes[id.0] {
            NodeData::Params(v) => {
                let mut i: usize = 0;
                while i < v.len()
                    invariant
                        i <= v@.len(),
                        out@ == v@.take(i as int),
                    decreases v@.len() - i,
                {
                    out.push(v[i]);
                    assert(v@.take(i + 1) =~= v@.take(i as int).push(v@[i as int]));
                    i = i + 1;
                }
                assert(v@.take(i as int) =~= v@);
            },
            _ => {},
        }
        out
    }

    /// The arguments at `id`.
    pub fn args_of(&self, id: ArgsId) -> (r: Vec<Arg>)
        requires
            has_kind(self.nodes@, id.0, NodeKind::Args),
        ensures
            r@ == args_at(self.nodes@, id),
    {
        let mut out: Vec<Arg> = Vec::new();
        match &self.nodes[id.0] {
            NodeData::Args(v) => {
                let mut i: usize = 0;
                while i < v.len()
                    invariant
                        i <= v@.len(),
                        out@ == v@.take(i as int),
                    decreases v@.len() - i,
                {
                    out.push(v[i]);
                    assert(v@.take(i + 1) =~= v@.take(i as int).push(v@[i as int]));
                    i = i + 1;
                }
                assert(v@.take(i as int) =~= v@);
            },
            _ => {},
        }
        out
    }

    /// The pattern arguments at `id`.
    pub fn pat_args_of(&self, id: PatArgsId) -> (r: Vec<PatArg>)
        requires
            has_kind(self.nodes@, id.0, NodeKind::PatArgs),
        ensures
            r@ == pat_args_at(self.nodes@, id),
    {
        let mut out: Vec<PatArg> = Vec::new();
        match &self.nodes[id.0] {
            NodeData::PatArgs(v) => {
                let mut i: usize = 0;
                while i < v.len()
                    invariant
                        i <= v@.len(),
                        out@ == v@.take(i as int),
                    decreases v@.len() - i,
                {
                    out.push(v[i]);
                    assert(v@.take(i + 1) =~= v@.take(i as int).push(v@[i as int]));
                    i = i + 1;
                }
                assert(v@.take(i as int) =~= v@);
            },
            _ => {},
        }
        out
    }

    /// The targets of the arguments (or pattern arguments) at `id`.
    pub fn arg_targets_of(&self, id: SomeArgsId) -> (r: Vec<ParamIndex>)
        requires
            some_args_ok(self.nodes@, id),
        ensures
            r@ == arg_targets(self.nodes@, id),
    {
        let mut out: Vec<ParamIndex> = Vec::new();
        match id {
            SomeArgsId::Args(a) => {
                let v = self.args_of(a);
                let mut i: usize = 0;
                while i < v.len()
                    invariant
                        i <= v@.len(),
                        out@ == v@.map_values(|x: Arg| x.target).take(i as int),
                    decreases v@.len() - i,
                {
                    out.push(v[i].target);
                    assert(v@.map_values(|x: Arg| x.target).take(i + 1) =~= out@);
                    i = i + 1;
                }
                assert(v@.map_values(|x: Arg| x.target).take(i as int) =~= v@.map_values(|x: Arg| x.target));
            },
            SomeArgsId::PatArgs(a) => {
                let v = self.pat_args_of(a);
                let mut i: usize = 0;
                while i < v.len()
                    invariant
                        i <= v@.len(),
                        out@ == v@.map_values(|x: PatArg| x.target).take(i as int),
                    decreases v@.len() - i,
                {
                    out.push(v[i].target);
                    assert(v@.map_values(|x: PatArg| x.target).take(i + 1) =~= out@);
                    i = i + 1;
                }
                assert(v@.map_values(|x: PatArg| x.target).take(i as int) =~= v@.map_values(|x: PatArg| x.target));
            },
        }
        out
    }
}

impl SomeParamsOrArgsId {
    /// The number of stored parameters or arguments.
    pub open spec fn spec_len(self, t: Seq<NodeData>) -> nat {
        match self {
            SomeParamsOrArgsId::Params(id) => params_at(t, id).len(),
            SomeParamsOrArgsId::PatArgs(id) => pat_args_at(t, id).len(),
            SomeParamsOrArgsId::Args(id) => args_at(t, id).len(),
        }
    }

    /// The list refers to a node of the store of the right kind.
    pub open spec fn ok(self, t: Seq<NodeData>) -> bool {
        match self {
            SomeParamsOrArgsId::Params(id) => has_kind(t, id.0, NodeKind::Params),
            SomeParamsOrArgsId::PatArgs(id) => has_kind(t, id.0, NodeKind::PatArgs),
            SomeParamsOrArgsId::Args(id) => has_kind(t, id.0, NodeKind::Args),
        }
    }

    /// Get the length of the inner stored parameters.
    pub fn len(&self, tir: &Tir) -> (r: usize)
        requires
            self.ok(tir.nodes@),
        ensures
            r == self.spec_len(tir.nodes@),
    {
        match self {
            SomeParamsOrArgsId::Params(id) => tir.params_of(*id).len(),
            SomeParamsOrArgsId::PatArgs(id) => tir.pat_args_of(*id).len(),
            SomeParamsOrArgsId::Args(id) => tir.args_of(*id).len(),
        }
    }

    /// Whether the inner stored parameters list is empty.
    pub fn is_empty(&self, tir: &Tir) -> (r: bool)
        requires
            self.ok(tir.nodes@),
        ensures
            r == (self.spec_len(tir.nodes@) == 0),
    {
        self.len(tir) == 0
    }

    /// The English noun for the kind of list.
    pub fn as_str(&self) -> (r: &'static str)
        ensures
            r@ == (match self {
                SomeParamsOrArgsId::Params(_) => "parameters"@,
                SomeParamsOrArgsId::PatArgs(_) => "pattern arguments"@,
                SomeParamsOrArgsId::Args(_) => "arguments"@,
            }),
    {
        match self {
            SomeParamsOrArgsId::Params(_) => "parameters",
            SomeParamsOrArgsId::PatArgs(_) => "pattern arguments",
            SomeParamsOrArgsId::Args(_) => "arguments",
        }
    }
}

/// The first position among `ps` of a parameter whose symbol has the
/// identifier `name`, if any.
pub open spec fn first_named(syms: Seq<SymbolData>, ps: Seq<Param>, name: Identifier) -> Option<int>
    decreases ps.len(),
{
    if ps.len() == 0 {
        None
    } else {
        match first_named(syms, ps.drop_last(), name) {
            Some(i) => Some(i),
            None => if symbol_ident(syms, ps.last().name) == Some(name) {
                Some(ps.len() - 1)
            } else {
                None
            },
        }
    }
}

pub proof fn lemma_first_named(syms: Seq<SymbolData>, ps: Seq<Param>, name: Identifier)
    ensures
        first_named(syms, ps, name) matches Some(i) ==> 0 <= i < ps.len() && symbol_ident(syms, ps[i].name)
            == Some(name) && forall|j: int| 0 <= j < i ==> symbol_ident(syms, ps[j].name) != Some(name),
        first_named(syms, ps, name) is None ==> forall|j: int|
            0 <= j < ps.len() ==> symbol_ident(syms, ps[j].name) != Some(name),
    decreases ps.len(),
{
    if ps.len() > 0 {
        let init = ps.drop_last();
        lemma_first_named(syms, init, name);
        assert forall|j: int| 0 <= j < init.len() implies init[j] == ps[j] by {}
    }
}

impl Tir {
    /// The identifier of a symbol, if it has one.
    pub fn ident_of(&self, s: SymbolId) -> (r: Option<Identifier>)
        ensures
            r == symbol_ident(self.symbols@, s),
    {
        if s.0 < self.symbols.len() {
            self.symbols[s.0].name
        } else {
            None
        }
    }

    /// The position of the first parameter named `name` in `ps`.
    pub fn position_of_name(&self, ps: &Vec<Param>, name: Identifier) -> (r: Option<usize>)
        ensures
            r matches Some(i) ==> first_named(self.symbols@, ps@, name) == Some(i as int),
            r is None ==> first_named(self.symbols@, ps@, name) is None,
    {
        proof {
            lemma_first_named(self.symbols@, ps@, name);
        }
        let mut i: usize = 0;
        while i < ps.len()
            invariant
                i <= ps@.len(),
                forall|j: int| 0 <= j < i ==> symbol_ident(self.symbols@, ps@[j].name) != Some(name),
            decreases ps@.len() - i,
        {
            if self.ident_of(ps[i].name) == Some(name) {
                proof {
                    lemma_first_named(self.symbols@, ps@, name);
                    match first_named(self.symbols@, ps@, name) {
                        Some(k) => {
                            if k < i {
                            } else if k > i {
                            }
                        },
                        None => {},
                    }
                }
                return Some(i);
            }
            i = i + 1;
        }
        None
    }
}

impl ParamsId {
    /// The position of the parameter with the given index: the first one
    /// with that name, or the given position.
    pub fn at_param_index(&self, tir: &Tir, index: ParamIndex) -> (r: Option<usize>)
        requires
            has_kind(tir.nodes@, self.0, NodeKind::Params),
        ensures
            match index {
                ParamIndex::Name(name) => match first_named(tir.symbols@, params_at(tir.nodes@, *self), name) {
                    Some(i) => r == Some(i as usize),
                    None => r is None,
                },
                ParamIndex::Position(pos) => r == Some(pos),
            },
    {
        match index {
            ParamIndex::Name(name) => {
                let ps = tir.params_of(*self);
                tir.position_of_name(&ps, name)
            },
            ParamIndex::Position(pos) => Some(pos),
        }
    }

    /// The parameter with the given index: the first one with that name,
    /// or the one at the given position if it exists.
    pub fn at_index(&self, tir: &Tir, index: ParamIndex) -> (r: Option<ParamId>)
        requires
            has_kind(tir.nodes@, self.0, NodeKind::Params),
        ensures
            match index {
                ParamIndex::Name(name) => match first_named(tir.symbols@, params_at(tir.nodes@, *self), name) {
                    Some(i) => r == Some(ParamId(*self, i as usize)),
                    None => r is None,
                },
                ParamIndex::Position(pos) => if pos < params_at(tir.nodes@, *self).len() {
                    r == Some(ParamId(*self, pos))
                } else {
                    r is None
                },
            },
    {
        match index {
            ParamIndex::Name(name) => {
                let ps = tir.params_of(*self);
                match tir.position_of_name(&ps, name) {
                    Some(i) => Some(ParamId(*self, i)),
                    None => None,
                }
            },
            ParamIndex::Position(pos) => {
                let ps = tir.params_of(*self);
                if pos < ps.len() {
                    Some(ParamId(*self, pos))
                } else {
                    None
                }
            },
        }
    }
}

/// The index of the parameter at position `i` of `ps`: its name if its
/// symbol has one, else its position.
pub open spec fn param_index_of(syms: Seq<SymbolData>, ps: Seq<Param>, i: int) -> ParamIndex {
    match symbol_ident(syms, ps[i].name) {
        Some(n) => ParamIndex::Name(n),
        None => ParamIndex::Position(i as usize),
    }
}

impl ParamId {
    /// The index of this parameter: its name if its symbol has one, else
    /// its position.
    pub open spec fn spec_param_index(self, t: Seq<NodeData>, syms: Seq<SymbolData>) -> ParamIndex {
        param_index_of(syms, params_at(t, self.0), self.1 as int)
    }

    /// The index of this parameter.
    pub fn as_param_index(&self, tir: &Tir) -> (r: ParamIndex)
        requires
            has_kind(tir.nodes@, self.0.0, NodeKind::Params),
            self.1 < params_at(tir.nodes@, self.0).len(),
        ensures
            r == self.spec_param_index(tir.nodes@, tir.symbols@),
    {
        let ps = tir.params_of(self.0);
        match tir.ident_of(ps[self.1].name) {
            Some(n) => ParamIndex::Name(n),
            None => ParamIndex::Position(self.1),
        }
    }
}

impl ParamIndex {
    /// A symbol for this index: one with its name, or a fresh one for a
    /// position.
    pub fn into_symbol(&self, tir: &mut Tir) -> (r: SymbolId)
        ensures
            r.0 == old(tir).symbols@.len(),
            final(tir).nodes == old(tir).nodes,
            final(tir).symbols@ == old(tir).symbols@.push(SymbolData {
                name: match *self {
                    ParamIndex::Name(n) => Some(n),
                    ParamIndex::Position(_) => None,
                },
            }),
    {
        match self {
            ParamIndex::Name(name) => tir.symbol_from_name(*name),
            ParamIndex::Position(_) => tir.fresh_symbol(),
        }
    }
}

/// The parameters that parameter data stand for.
pub open spec fn params_from_data(d: Seq<ParamData>) -> Seq<Param> {
    d.map_values(|x: ParamData| Param { name: x.name, ty: x.ty, default: x.default })
}

/// The arguments that argument data stand for.
pub open spec fn args_from_data(d: Seq<ArgData>) -> Seq<Arg> {
    d.map_values(|x: ArgData| Arg { target: x.target, value: x.value })
}

/// The pattern arguments that pattern argument data stand for.
pub open spec fn pat_args_from_data(d: Seq<PatArgData>) -> Seq<PatArg> {
    d.map_values(|x: PatArgData| PatArg { target: x.target, pat: x.pat })
}

/// The type and default value of a parameter are terms of the store.
pub open spec fn param_ok(t: Seq<NodeData>, p: Param) -> bool {
    &&& has_kind(t, p.ty.0, NodeKind::Term)
    &&& (p.default matches Some(d) ==> has_kind(t, d.0, NodeKind::Term))
}

/// The pattern of a pattern argument is a pattern of the store.
pub open spec fn pat_arg_ok(t: Seq<NodeData>, a: PatArg) -> bool {
    a.pat matches PatOrCapture::Pat(p) ==> has_kind(t, p.0, NodeKind::Pat)
}

/// The parameters with the given names whose types are the consecutive
/// nodes from `first_ty`, without defaults.
pub open spec fn params_of_names(names: Seq<SymbolId>, first_ty: nat) -> Seq<Param> {
    Seq::new(names.len(), |i: int| Param { name: names[i], ty: TermId((first_ty + i) as usize), default: None })
}

/// Each of the `n` nodes from `first` is a hole of the symbol `first_sym`
/// on.
pub open spec fn holes_from(t: Seq<NodeData>, first: nat, first_sym: nat, n: nat) -> bool {
    forall|i: int| 0 <= i < n ==> #[trigger] t[first + i] == NodeData::Term(Term::Hole(SymbolId((first_sym + i) as usize)))
}

impl Tir {
    /// Add a parameter list to the store.
    pub fn push_params(&mut self, ps: Vec<Param>) -> (r: ParamsId)
        requires
            old(self).inv(),
            forall|i: int| 0 <= i < ps@.len() ==> param_ok(old(self).nodes@, #[trigger] ps@[i]),
        ensures
            final(self).inv(),
            r.0 == old(self).nodes@.len(),
            final(self).nodes@.len() == old(self).nodes@.len() + 1,
            extends(final(self).nodes@, old(self).nodes@),
            final(self).symbols == old(self).symbols,
            has_kind(final(self).nodes@, r.0, NodeKind::Params),
            params_at(final(self).nodes@, r) == ps@,
    {
        let ghost t = self.nodes@;
        let ghost n = NodeData::Params(ps);
        proof {
            let ks = ps@.map_values(|p: Param| param_kids(p));
            let kinds = ps@.map_values(|p: Param| param_kinds(p));
            assert forall|e: int, q: int| 0 <= e < ks.len() && 0 <= q < ks[e].len() implies (#[trigger] ks[e][q]) < t.len()
                && kind_of(t[ks[e][q] as int]) == kinds[e][q] by {
                assert(param_ok(t, ps@[e]));
            }
            lemma_flat_ok(t, t.len() as int, ks, kinds);
            assert(children(n) == ks.flatten_alt());
            assert(child_kinds(n) == kinds.flatten_alt());
        }
        ParamsId(self.push_node(NodeData::Params(ps)))
    }

    /// Add an argument list to the store.
    pub fn push_args(&mut self, args: Vec<Arg>) -> (r: ArgsId)
        requires
            old(self).inv(),
            forall|i: int| 0 <= i < args@.len() ==> has_kind(old(self).nodes@, (#[trigger] args@[i]).value.0, NodeKind::Term),
        ensures
            final(self).inv(),
            r.0 == old(self).nodes@.len(),
            final(self).nodes@.len() == old(self).nodes@.len() + 1,
            extends(final(self).nodes@, old(self).nodes@),
            final(self).symbols == old(self).symbols,
            has_kind(final(self).nodes@, r.0, NodeKind::Args),
            args_at(final(self).nodes@, r) == args@,
    {
        let ghost t = self.nodes@;
        let ghost n = NodeData::Args(args);
        proof {
            assert forall|x: int| 0 <= x < children(n).len() implies {
                &&& (#[trigger] children(n)[x]) < t.len()
                &&& kind_of(t[children(n)[x] as int]) == child_kinds(n)[x]
            } by {
                assert(children(n)[x] == args@[x].value.0);
            }
        }
        ArgsId(self.push_node(NodeData::Args(args)))
    }

    /// Add a pattern argument list to the store.
    pub fn push_pat_args(&mut self, args: Vec<PatArg>) -> (r: PatArgsId)
        requires
            old(self).inv(),
            forall|i: int| 0 <= i < args@.len() ==> pat_arg_ok(old(self).nodes@, #[trigger] args@[i]),
        ensures
            final(self).inv(),
            r.0 == old(self).nodes@.len(),
            final(self).nodes@.len() == old(self).nodes@.len() + 1,
            extends(final(self).nodes@, old(self).nodes@),
            final(self).symbols == old(self).symbols,
            has_kind(final(self).nodes@, r.0, NodeKind::PatArgs),
            pat_args_at(final(self).nodes@, r) == args@,
    {
        let ghost t = self.nodes@;
        let ghost n = NodeData::PatArgs(args);
        proof {
            let ks = args@.map_values(|a: PatArg| pat_arg_kids(a));
            let kinds = args@.map_values(|a: PatArg| pat_arg_kinds(a));
            assert forall|e: int, q: int| 0 <= e < ks.len() && 0 <= q < ks[e].len() implies (#[trigger] ks[e][q]) < t.len()
                && kind_of(t[ks[e][q] as int]) == kinds[e][q] by {
                assert(pat_arg_ok(t, args@[e]));
            }
            lemma_flat_ok(t, t.len() as int, ks, kinds);
            assert(children(n) == ks.flatten_alt());
            assert(child_kinds(n) == kinds.flatten_alt());
        }
        PatArgsId(self.push_node(NodeData::PatArgs(args)))
    }

    /// Create a type hole of a fresh symbol.
    pub fn new_ty_hole(&mut self) -> (r: TyId)
        requires
            old(self).inv(),
        ensures
            final(self).inv(),
            r.0 == old(self).nodes@.len(),
            final(self).nodes@ == old(self).nodes@.push(NodeData::Term(Term::Hole(SymbolId(old(self).symbols@.len() as usize)))),
            final(self).symbols@ == old(self).symbols@.push(SymbolData { name: None }),
    {
        let s = self.fresh_symbol();
        self.new_term(Term::Hole(s))
    }

    /// Create a hole type for each name, then the parameters of those
    /// names and types.
    fn params_with_hole_types(&mut self, names: &Vec<SymbolId>) -> (r: ParamsId)
        requires
            old(self).inv(),
        ensures
            final(self).inv(),
            extends(final(self).nodes@, old(self).nodes@),
            final(self).nodes@.len() == old(self).nodes@.len() + names@.len() + 1,
            r.0 == old(self).nodes@.len() + names@.len(),
            holes_from(final(self).nodes@, old(self).nodes@.len(), old(self).symbols@.len(), names@.len()),
            final(self).symbols@ == old(self).symbols@ + Seq::new(names@.len(), |i: int| SymbolData { name: None }),
            has_kind(final(self).nodes@, r.0, NodeKind::Params),
            params_at(final(self).nodes@, r) == params_of_names(names@, old(self).nodes@.len()),
    {
        let ghost t0 = self.nodes@;
        let ghost s0 = self.symbols@;
        let mut ps: Vec<Param> = Vec::new();
        let mut i: usize = 0;
        while i < names.len()
            invariant
                i <= names@.len(),
                self.inv(),
                extends(self.nodes@, t0),
                self.nodes@.len() == t0.len() + i,
                self.symbols@ == s0 + Seq::new(i as nat, |k: int| SymbolData { name: None }),
                holes_from(self.nodes@, t0.len(), s0.len(), i as nat),
                ps@ == params_of_names(names@, t0.len()).take(i as int),
                forall|k: int| 0 <= k < ps@.len() ==> param_ok(self.nodes@, #[trigger] ps@[k]),
            decreases names@.len() - i,
        {
            let ghost t1 = self.nodes@;
            let ty = self.new_ty_hole();
            ps.push(Param { name: names[i], ty, default: None });
            proof {
                assert(self.symbols@ =~= s0 + Seq::new((i + 1) as nat, |k: int| SymbolData { name: None }));
                assert forall|k: int| 0 <= k < i + 1 implies #[trigger] self.nodes@[t0.len() + k]
                    == NodeData::Term(Term::Hole(SymbolId((s0.len() + k) as usize))) by {
                    if k < i {
                        assert(t1[t0.len() + k] == NodeData::Term(Term::Hole(SymbolId((s0.len() + k) as usize))));
                    }
                }
                assert(params_of_names(names@, t0.len()).take(i + 1) =~= ps@);
                assert forall|k: int| 0 <= k < ps@.len() implies param_ok(self.nodes@, #[trigger] ps@[k]) by {
                    if k < i {
                        assert(param_ok(t1, ps@[k]));
                    }
                }
            }
            i = i + 1;
        }
        assert(params_of_names(names@, t0.len()).take(i as int) =~= params_of_names(names@, t0.len()));
        self.push_params(ps)
    }
}

/// Utilities for creating parameters and arguments.
pub struct ParamUtils;

impl ParamUtils {
    /// The utilities.
    pub fn new() -> (r: Self) {
        ParamUtils
    }

    /// Create a new parameter list with the given names, and holes for all
    /// types.
    pub fn create_hole_params(&self, tir: &mut Tir, param_names: &Vec<SymbolId>) -> (r: ParamsId)
        requires
            old(tir).inv(),
        ensures
            final(tir).inv(),
            extends(final(tir).nodes@, old(tir).nodes@),
            final(tir).nodes@.len() == old(tir).nodes@.len() + param_names@.len() + 1,
            r.0 == old(tir).nodes@.len() + param_names@.len(),
            holes_from(final(tir).nodes@, old(tir).nodes@.len(), old(tir).symbols@.len(), param_names@.len()),
            final(tir).symbols@ == old(tir).symbols@ + Seq::new(param_names@.len(), |i: int| SymbolData { name: None }),
            has_kind(final(tir).nodes@, r.0, NodeKind::Params),
            params_at(final(tir).nodes@, r) == params_of_names(param_names@, old(tir).nodes@.len()),
    {
        tir.params_with_hole_types(param_names)
    }

    /// Create parameters from the given parameter data.
    pub fn create_params(&self, tir: &mut Tir, params: &Vec<ParamData>) -> (r: ParamsId)
        requires
            old(tir).inv(),
            forall|i: int| 0 <= i < params@.len() ==> param_ok(old(tir).nodes@, #[trigger] params_from_data(params@)[i]),
        ensures
            final(tir).inv(),
            r.0 == old(tir).nodes@.len(),
            final(tir).nodes@.len() == old(tir).nodes@.len() + 1,
            extends(final(tir).nodes@, old(tir).nodes@),
            final(tir).symbols == old(tir).symbols,
            has_kind(final(tir).nodes@, r.0, NodeKind::Params),
            params_at(final(tir).nodes@, r) == params_from_data(params@),
    {
        let mut ps: Vec<Param> = Vec::new();
        let mut i: usize = 0;
        while i < params.len()
            invariant
                i <= params@.len(),
                ps@ == params_from_data(params@).take(i as int),
            decreases params@.len() - i,
        {
            let d = params[i];
            ps.push(Param { name: d.name, ty: d.ty, default: d.default });
            assert(params_from_data(params@).take(i + 1) =~= ps@);
            i = i + 1;
        }
        assert(params_from_data(params@).take(i as int) =~= params_from_data(params@));
        tir.push_params(ps)
    }

    /// Create arguments from the given argument data.
    pub fn create_args(&self, tir: &mut Tir, args: &Vec<ArgData>) -> (r: ArgsId)
        requires
            old(tir).inv(),
            forall|i: int| 0 <= i < args@.len() ==> has_kind(old(tir).nodes@, (#[trigger] args@[i]).value.0, NodeKind::Term),
        ensures
            final(tir).inv(),
            r.0 == old(tir).nodes@.len(),
            final(tir).nodes@.len() == old(tir).nodes@.len() + 1,
            extends(final(tir).nodes@, old(tir).nodes@),
            final(tir).symbols == old(tir).symbols,
            has_kind(final(tir).nodes@, r.0, NodeKind::Args),
            args_at(final(tir).nodes@, r) == args_from_data(args@),
    {
        let mut out: Vec<Arg> = Vec::new();
        let mut i: usize = 0;
        while i < args.len()
            invariant
                i <= args@.len(),
                out@ == args_from_data(args@).take(i as int),
            decreases args@.len() - i,
        {
            let d = args[i];
            out.push(Arg { target: d.target, value: d.value });
            assert(args_from_data(args@).take(i + 1) =~= out@);
            i = i + 1;
        }
        assert(args_from_data(args@).take(i as int) =~= args_from_data(args@));
        tir.push_args(out)
    }

    /// Create pattern arguments from the given pattern argument data.
    pub fn create_pat_args(&self, tir: &mut Tir, args: &Vec<PatArgData>) -> (r: PatArgsId)
        requires
            old(tir).inv(),
            forall|i: int| 0 <= i < args@.len() ==> pat_arg_ok(old(tir).nodes@, #[trigger] pat_args_from_data(args@)[i]),
        ensures
            final(tir).inv(),
            r.0 == old(tir).nodes@.len(),
            final(tir).nodes@.len() == old(tir).nodes@.len() + 1,
            extends(final(tir).nodes@, old(tir).nodes@),
            final(tir).symbols == old(tir).symbols,
            has_kind(final(tir).nodes@, r.0, NodeKind::PatArgs),
            pat_args_at(final(tir).nodes@, r) == pat_args_from_data(args@),
    {
        let mut out: Vec<PatArg> = Vec::new();
        let mut i: usize = 0;
        while i < args.len()
            invariant
                i <= args@.len(),
                out@ == pat_args_from_data(args@).take(i as int),
            decreases args@.len() - i,
        {
            let d = args[i];
            out.push(PatArg { target: d.target, pat: d.pat });
            assert(pat_args_from_data(args@).take(i + 1) =~= out@);
            i = i + 1;
        }
        assert(pat_args_from_data(args@).take(i as int) =~= pat_args_from_data(args@));
        tir.push_pat_args(out)
    }

    /// Create positional arguments with the given values, for the data
    /// definition `def`: the argument at position `j` targets position `j`.
    pub fn create_positional_args_for_data_def(&self, tir: &mut Tir, def: DataDefId, args: &Vec<TermId>) -> (r: ArgsId)
        requires
            old(tir).inv(),
            forall|i: int| 0 <= i < args@.len() ==> has_kind(old(tir).nodes@, (#[trigger] args@[i]).0, NodeKind::Term),
        ensures
            final(tir).inv(),
            r.0 == old(tir).nodes@.len(),
            final(tir).nodes@.len() == old(tir).nodes@.len() + 1,
            extends(final(tir).nodes@, old(tir).nodes@),
            final(tir).symbols == old(tir).symbols,
            has_kind(final(tir).nodes@, r.0, NodeKind::Args),
            args_at(final(tir).nodes@, r) == Seq::new(args@.len(), |j: int| Arg { target: ParamIndex::Position(j as usize), value: args@[j] }),
    {
        let mut data: Vec<ArgData> = Vec::new();
        let mut j: usize = 0;
        while j < args.len()
            invariant
                j <= args@.len(),
                data@ == Seq::new(j as nat, |k: int| ArgData { target: ParamIndex::Position(k as usize), value: args@[k] }),
            decreases args@.len() - j,
        {
            data.push(ArgData { target: ParamIndex::Position(j), value: args[j] });
            assert(data@ =~= Seq::new((j + 1) as nat, |k: int| ArgData { target: ParamIndex::Position(k as usize), value: args@[k] }));
            j = j + 1;
        }
        let r = self.create_args(tir, &data);
        assert(args_at(tir.nodes@, r) =~= Seq::new(args@.len(), |j: int| Arg { target: ParamIndex::Position(j as usize), value: args@[j] }));
        r
    }
}

impl Param {
    /// Create a new parameter list with the given names, and holes for all
    /// types.
    pub fn seq_from_names_with_hole_types(tir: &mut Tir, param_names: &Vec<SymbolId>) -> (r: ParamsId)
        requires
            old(tir).inv(),
        ensures
            final(tir).inv(),
            extends(final(tir).nodes@, old(tir).nodes@),
            final(tir).nodes@.len() == old(tir).nodes@.len() + param_names@.len() + 1,
            r.0 == old(tir).nodes@.len() + param_names@.len(),
            holes_from(final(tir).nodes@, old(tir).nodes@.len(), old(tir).symbols@.len(), param_names@.len()),
            final(tir).symbols@ == old(tir).symbols@ + Seq::new(param_names@.len(), |i: int| SymbolData { name: None }),
            has_kind(final(tir).nodes@, r.0, NodeKind::Params),
            params_at(final(tir).nodes@, r) == params_of_names(param_names@, old(tir).nodes@.len()),
    {
        tir.params_with_hole_types(param_names)
    }

    /// Create a new parameter list with a symbol for each of the given
    /// arguments, named as the argument's target is, and holes for all types.
    pub fn seq_from_args_with_hole_types(tir: &mut Tir, args: SomeArgsId) -> (r: ParamsId)
        requires
            old(tir).inv(),
            some_args_ok(old(tir).nodes@, args),
        ensures
            ({
                let ts = arg_targets(old(tir).nodes@, args);
                let n = ts.len();
                let s0 = old(tir).symbols@.len();
                let t0 = old(tir).nodes@.len();
                let names = Seq::new(n, |i: int| SymbolId((s0 + i) as usize));
                &&& final(tir).inv()
                &&& extends(final(tir).nodes@, old(tir).nodes@)
                &&& final(tir).nodes@.len() == t0 + n + 1
                &&& r.0 == t0 + n
                &&& final(tir).symbols@ == old(tir).symbols@ + Seq::new(n, |i: int| SymbolData { name: target_name(ts[i]) })
                    + Seq::new(n, |i: int| SymbolData { name: None })
                &&& holes_from(final(tir).nodes@, t0, s0 + n, n)
                &&& has_kind(final(tir).nodes@, r.0, NodeKind::Params)
                &&& params_at(final(tir).nodes@, r) == params_of_names(names, t0)
            }),
    {
        let ts = tir.arg_targets_of(args);
        let ghost s0 = tir.symbols@;
        let ghost t0 = tir.nodes@;
        let mut names: Vec<SymbolId> = Vec::new();
        let mut i: usize = 0;
        while i < ts.len()
            invariant
                i <= ts@.len(),
                ts@ == arg_targets(t0, args),
                tir.nodes == old(tir).nodes,
                tir.symbols@ == s0 + Seq::new(i as nat, |k: int| SymbolData { name: target_name(ts@[k]) }),
                names@ == Seq::new(i as nat, |k: int| SymbolId((s0.len() + k) as usize)),
            decreases ts@.len() - i,
        {
            let s = ts[i].into_symbol(tir);
            names.push(s);
            assert(tir.symbols@ =~= s0 + Seq::new((i + 1) as nat, |k: int| SymbolData { name: target_name(ts@[k]) }));
            assert(names@ =~= Seq::new((i + 1) as nat, |k: int| SymbolId((s0.len() + k) as usize)));
            i = i + 1;
        }
        tir.params_with_hole_types(&names)
    }

    /// Create a new parameter list of the given types, each with a fresh
    /// name and no default value.
    pub fn seq_positional(tir: &mut Tir, tys: &Vec<TyId>) -> (r: ParamsId)
        requires
            old(tir).inv(),
            forall|i: int| 0 <= i < tys@.len() ==> has_kind(old(tir).nodes@, (#[trigger] tys@[i]).0, NodeKind::Term),
        ensures
            final(tir).inv(),
            r.0 == old(tir).nodes@.len(),
            final(tir).nodes@.len() == old(tir).nodes@.len() + 1,
            extends(final(tir).nodes@, old(tir).nodes@),
            final(tir).symbols@ == old(tir).symbols@ + Seq::new(tys@.len(), |i: int| SymbolData { name: None }),
            has_kind(final(tir).nodes@, r.0, NodeKind::Params),
            params_at(final(tir).nodes@, r) == Seq::new(
                tys@.len(),
                |i: int| Param { name: SymbolId((old(tir).symbols@.len() + i) as usize), ty: tys@[i], default: None },
            ),
    {
        let ghost s0 = tir.symbols@;
        let mut ps: Vec<Param> = Vec::new();
        let mut i: usize = 0;
        while i < tys.len()
            invariant
                i <= tys@.len(),
                tir.nodes == old(tir).nodes,
                tir.inv(),
                tir.symbols@ == s0 + Seq::new(i as nat, |k: int| SymbolData { name: None }),
                ps@ == Seq::new(i as nat, |k: int| Param { name: SymbolId((s0.len() + k) as usize), ty: tys@[k], default: None }),
                forall|k: int| 0 <= k < tys@.len() ==> has_kind(tir.nodes@, (#[trigger] tys@[k]).0, NodeKind::Term),
            decreases tys@.len() - i,
        {
            let name = tir.fresh_symbol();
            ps.push(Param { name, ty: tys[i], default: None });
            assert(tir.symbols@ =~= s0 + Seq::new((i + 1) as nat, |k: int| SymbolData { name: None }));
            assert(ps@ =~= Seq::new((i + 1) as nat, |k: int| Param { name: SymbolId((s0.len() + k) as usize), ty: tys@[k], default: None }));
            i = i + 1;
        }
        assert forall|k: int| 0 <= k < ps@.len() implies param_ok(tir.nodes@, #[trigger] ps@[k]) by {
            assert(ps@[k].ty == tys@[k]);
        }
        tir.push_params(ps)
    }
}

/// The identifier that a target names, if any.
pub open spec fn target_name(t: ParamIndex) -> Option<Identifier> {
    match t {
        ParamIndex::Name(n) => Some(n),
        ParamIndex::Position(_) => None,
    }
}

} // verus!

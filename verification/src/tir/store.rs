//! The typed intermediate representation (TIR) and its store.
//!
//! Every term, pattern, function definition and sequence (of arguments,
//! parameters, ...) is a node of one arena, [Tir], and is referred to by its
//! index. A node only refers to nodes created before it, so the nodes form a
//! directed acyclic graph; [tree] unfolds a node into the finite tree it
//! denotes, which is what the specifications of this crate speak of.

use vstd::prelude::*;

use crate::ir::{Identifier, RefKind};

verus! {

/// A symbol (a variable name, possibly without a source identifier).
#[derive(Debug, Clone, Copy, PartialEq, Eq, Structural)]
pub struct SymbolId(pub usize);

/// The data of a symbol: its identifier in the source, if it has one.
#[derive(Debug, Clone, Copy, PartialEq, Eq, Structural)]
pub struct SymbolData {
    pub name: Option<Identifier>,
}

/// A term of the TIR.
#[derive(Debug, Clone, Copy, PartialEq, Eq, Structural)]
pub struct TermId(pub usize);

/// Types are terms.
pub type TyId = TermId;

/// A pattern of the TIR.
#[derive(Debug, Clone, Copy, PartialEq, Eq, Structural)]
pub struct PatId(pub usize);

/// A function definition of the TIR.
#[derive(Debug, Clone, Copy, PartialEq, Eq, Structural)]
pub struct FnDefId(pub usize);

/// A sequence of arguments.
#[derive(Debug, Clone, Copy, PartialEq, Eq, Structural)]
pub struct ArgsId(pub usize);

/// A sequence of parameters.
#[derive(Debug, Clone, Copy, PartialEq, Eq, Structural)]
pub struct ParamsId(pub usize);

/// A sequence of pattern arguments.
#[derive(Debug, Clone, Copy, PartialEq, Eq, Structural)]
pub struct PatArgsId(pub usize);

/// A sequence of terms.
#[derive(Debug, Clone, Copy, PartialEq, Eq, Structural)]
pub struct TermListId(pub usize);

/// A sequence of patterns and captures.
#[derive(Debug, Clone, Copy, PartialEq, Eq, Structural)]
pub struct PatListId(pub usize);

/// A sequence of block statements.
#[derive(Debug, Clone, Copy, PartialEq, Eq, Structural)]
pub struct BlockStatementsId(pub usize);

/// A sequence of match cases.
#[derive(Debug, Clone, Copy, PartialEq, Eq, Structural)]
pub struct MatchCasesId(pub usize);

/// A literal, by its interned index.
#[derive(Debug, Clone, Copy, PartialEq, Eq, Structural)]
pub struct LitId(pub u32);

/// A data type definition.
#[derive(Debug, Clone, Copy, PartialEq, Eq, Structural)]
pub struct DataDefId(pub u32);

/// A constructor: its data definition and its position among the
/// constructors of that definition.
#[derive(Debug, Clone, Copy, PartialEq, Eq, Structural)]
pub struct CtorDefId(pub u32, pub u32);

/// An intrinsic function.
#[derive(Debug, Clone, Copy, PartialEq, Eq, Structural)]
pub struct IntrinsicId(pub u32);

/// A stack frame of a block.
#[derive(Debug, Clone, Copy, PartialEq, Eq, Structural)]
pub struct StackId(pub u32);

/// An index of a parameter of a parameter list: named or positional.
#[derive(Debug, Clone, Copy, PartialEq, Eq, Structural)]
pub enum ParamIndex {
    /// A named parameter, like `foo(value=3)`.
    Name(Identifier),
    /// A positional parameter, like `dot(x, y)`.
    Position(usize),
}

/// `break` or `continue`.
#[derive(Debug, Clone, Copy, PartialEq, Eq, Structural)]
pub enum LoopControlTerm {
    Break,
    Continue,
}

/// Whether a range pattern includes its upper end.
#[derive(Debug, Clone, Copy, PartialEq, Eq, Structural)]
pub enum RangeEnd {
    Included,
    Excluded,
}

/// A spread in a pattern list, `...name`, at the given position.
#[derive(Debug, Clone, Copy, PartialEq, Eq, Structural)]
pub struct Spread {
    pub name: SymbolId,
    pub index: usize,
}

/// A function type.
#[derive(Debug, Clone, Copy, PartialEq, Eq, Structural)]
pub struct FnTy {
    /// The parameters of the function.
    pub params: ParamsId,
    /// The return type, which may refer to the parameters.
    pub return_ty: TyId,
    /// Whether the function takes implicit arguments.
    pub implicit: bool,
    /// Whether the function is unsafe.
    pub is_unsafe: bool,
    /// Whether the function is pure.
    pub pure: bool,
}

/// A term. Types are the variants from `TupleTy` on.
#[derive(Debug, Clone, Copy, PartialEq, Eq, Structural)]
pub enum Term {
    /// A tuple value.
    Tuple { data: ArgsId },
    /// A literal.
    Lit(LitId),
    /// An array value.
    Array { elements: TermListId },
    /// A constructor call.
    Ctor { ctor: CtorDefId, data_args: ArgsId, ctor_args: ArgsId },
    /// A function call.
    Call { subject: TermId, args: ArgsId, implicit: bool },
    /// A reference to a function definition.
    Fn(FnDefId),
    /// A block of statements followed by an expression.
    Block { statements: BlockStatementsId, stack_id: StackId, expr: TermId },
    /// A variable.
    Var(SymbolId),
    /// A loop.
    Loop { inner: TermId },
    /// `break` or `continue`.
    LoopControl(LoopControlTerm),
    /// A match on a subject.
    Match { subject: TermId, cases: MatchCasesId },
    /// A return.
    Return { expression: TermId },
    /// An assignment.
    Assign { subject: TermId, value: TermId },
    /// An unsafe block.
    Unsafe { inner: TermId },
    /// A field access.
    Access { subject: TermId, field: ParamIndex },
    /// An index into an array.
    Index { subject: TermId, index: TermId },
    /// A cast to a type.
    Cast { subject_term: TermId, target_ty: TyId },
    /// The type of a term.
    TypeOf { term: TermId },
    /// A reference to a term.
    Ref { subject: TermId, kind: RefKind, mutable: bool },
    /// A dereference.
    Deref { subject: TermId },
    /// A hole, to be filled by inference.
    Hole(SymbolId),
    /// An intrinsic.
    Intrinsic(IntrinsicId),
    /// A tuple type.
    TupleTy { data: ParamsId },
    /// A function type.
    FnTy(FnTy),
    /// A reference type.
    RefTy { ty: TyId, kind: RefKind, mutable: bool },
    /// A data type applied to arguments.
    DataTy { data_def: DataDefId, args: ArgsId },
    /// The type of types.
    Universe,
}

/// A pattern.
#[derive(Debug, Clone, Copy, PartialEq, Eq, Structural)]
pub enum Pat {
    /// A binding of a name.
    Binding { name: SymbolId, is_mutable: bool },
    /// A range of literals.
    Range { lo: LitId, hi: LitId, end: RangeEnd },
    /// A literal.
    Lit(LitId),
    /// A tuple pattern.
    Tuple { data: PatArgsId, data_spread: Option<Spread> },
    /// An array pattern.
    Array { pats: PatListId, spread: Option<Spread> },
    /// A constructor pattern.
    Ctor { ctor: CtorDefId, data_args: ArgsId, ctor_pat_args: PatArgsId, ctor_pat_args_spread: Option<Spread> },
    /// Alternatives.
    Or { alternatives: PatListId },
    /// A pattern with a guard.
    If { pat: PatId, condition: TermId },
}

/// A pattern, or a capture of the rest of the fields.
#[derive(Debug, Clone, Copy, PartialEq, Eq, Structural)]
pub enum PatOrCapture {
    Pat(PatId),
    Capture,
}

/// An argument: its target parameter and its value.
#[derive(Debug, Clone, Copy, PartialEq, Eq, Structural)]
pub struct Arg {
    pub target: ParamIndex,
    pub value: TermId,
}

/// A pattern argument: its target parameter and its pattern.
#[derive(Debug, Clone, Copy, PartialEq, Eq, Structural)]
pub struct PatArg {
    pub target: ParamIndex,
    pub pat: PatOrCapture,
}

/// A parameter: a name, a type and possibly a default value.
#[derive(Debug, Clone, Copy, PartialEq, Eq, Structural)]
pub struct Param {
    /// The name of the parameter.
    pub name: SymbolId,
    /// The type of the parameter.
    pub ty: TyId,
    /// The default value of the parameter.
    pub default: Option<TermId>,
}

/// A statement of a block.
#[derive(Debug, Clone, Copy, PartialEq, Eq, Structural)]
pub enum BlockStatement {
    /// A declaration binding a pattern, with a type and maybe a value.
    Decl { bind_pat: PatId, ty: TyId, value: Option<TermId> },
    /// An expression.
    Expr(TermId),
}

/// A case of a match.
#[derive(Debug, Clone, Copy, PartialEq, Eq, Structural)]
pub struct MatchCase {
    pub bind_pat: PatId,
    pub value: TermId,
    pub stack_id: StackId,
}

/// A function definition.
#[derive(Debug, Clone, Copy, PartialEq, Eq, Structural)]
pub struct FnDef {
    /// The name of the function.
    pub name: SymbolId,
    /// The type of the function.
    pub ty: FnTy,
    /// The body of the function.
    pub body: TermId,
}

/// A node of the arena.
#[derive(Debug, Clone, PartialEq, Eq)]
pub enum NodeData {
    Term(Term),
    Pat(Pat),
    FnDef(FnDef),
    Args(Vec<Arg>),
    Params(Vec<Param>),
    PatArgs(Vec<PatArg>),
    TermList(Vec<TermId>),
    PatList(Vec<PatOrCapture>),
    Statements(Vec<BlockStatement>),
    Cases(Vec<MatchCase>),
}

/// The kind of a node.
#[derive(Debug, Clone, Copy, PartialEq, Eq, Structural)]
pub enum NodeKind {
    Term,
    Pat,
    FnDef,
    Args,
    Params,
    PatArgs,
    TermList,
    PatList,
    Statements,
    Cases,
}

/// An atom of the TIR: the nodes that a traversal calls back on.
#[derive(Debug, Clone, Copy, PartialEq, Eq, Structural)]
pub enum Atom {
    Term(TermId),
    FnDef(FnDefId),
    Pat(PatId),
}

/// The finite tree that a node denotes: a tag, the scalar data of the node
/// (one sequence per node, or per element for sequences), and the subtrees
/// of its children in order.
pub enum Tree {
    Node(int, Seq<Seq<int>>, Seq<Tree>),
}

pub open spec fn kind_of(n: NodeData) -> NodeKind {
    match n {
        NodeData::Term(_) => NodeKind::Term,
        NodeData::Pat(_) => NodeKind::Pat,
        NodeData::FnDef(_) => NodeKind::FnDef,
        NodeData::Args(_) => NodeKind::Args,
        NodeData::Params(_) => NodeKind::Params,
        NodeData::PatArgs(_) => NodeKind::PatArgs,
        NodeData::TermList(_) => NodeKind::TermList,
        NodeData::PatList(_) => NodeKind::PatList,
        NodeData::Statements(_) => NodeKind::Statements,
        NodeData::Cases(_) => NodeKind::Cases,
    }
}

pub open spec fn b2i(b: bool) -> int {
    if b { 1 } else { 0 }
}

pub open spec fn enc_index(p: ParamIndex) -> Seq<int> {
    match p {
        ParamIndex::Name(n) => seq![0, n.0 as int],
        ParamIndex::Position(k) => seq![1, k as int],
    }
}

pub open spec fn enc_ref_kind(k: RefKind) -> int {
    match k {
        RefKind::Rc => 0,
        RefKind::Raw => 1,
        RefKind::Normal => 2,
    }
}

pub open spec fn enc_spread(s: Option<Spread>) -> Seq<int> {
    match s {
        Some(sp) => seq![1, sp.name.0 as int, sp.index as int],
        None => seq![0],
    }
}

/// The tag of a node: which variant it is.
pub open spec fn tag_of(n: NodeData) -> int {
    match n {
        NodeData::Term(t) => match t {
            Term::Tuple { .. } => 0,
            Term::Lit(_) => 1,
            Term::Array { .. } => 2,
            Term::Ctor { .. } => 3,
            Term::Call { .. } => 4,
            Term::Fn(_) => 5,
            Term::Block { .. } => 6,
            Term::Var(_) => 7,
            Term::Loop { .. } => 8,
            Term::LoopControl(_) => 9,
            Term::Match { .. } => 10,
            Term::Return { .. } => 11,
            Term::Assign { .. } => 12,
            Term::Unsafe { .. } => 13,
            Term::Access { .. } => 14,
            Term::Index { .. } => 15,
            Term::Cast { .. } => 16,
            Term::TypeOf { .. } => 17,
            Term::Ref { .. } => 18,
            Term::Deref { .. } => 19,
            Term::Hole(_) => 20,
            Term::Intrinsic(_) => 21,
            Term::TupleTy { .. } => 22,
            Term::FnTy(_) => 23,
            Term::RefTy { .. } => 24,
            Term::DataTy { .. } => 25,
            Term::Universe => 26,
        },
        NodeData::Pat(p) => match p {
            Pat::Binding { .. } => 100,
            Pat::Range { .. } => 101,
            Pat::Lit(_) => 102,
            Pat::Tuple { .. } => 103,
            Pat::Array { .. } => 104,
            Pat::Ctor { .. } => 105,
            Pat::Or { .. } => 106,
            Pat::If { .. } => 107,
        },
        NodeData::FnDef(_) => 200,
        NodeData::Args(_) => 300,
        NodeData::Params(_) => 301,
        NodeData::PatArgs(_) => 302,
        NodeData::TermList(_) => 303,
        NodeData::PatList(_) => 304,
        NodeData::Statements(_) => 305,
        NodeData::Cases(_) => 306,
    }
}

pub open spec fn pat_or_capture_data(p: PatOrCapture) -> Seq<int> {
    match p {
        PatOrCapture::Pat(_) => seq![1],
        PatOrCapture::Capture => seq![0],
    }
}

pub open spec fn pat_or_capture_kids(p: PatOrCapture) -> Seq<usize> {
    match p {
        PatOrCapture::Pat(q) => seq![q.0],
        PatOrCapture::Capture => Seq::empty(),
    }
}

pub open spec fn pat_or_capture_kinds(p: PatOrCapture) -> Seq<NodeKind> {
    match p {
        PatOrCapture::Pat(_) => seq![NodeKind::Pat],
        PatOrCapture::Capture => Seq::empty(),
    }
}

pub open spec fn param_data(p: Param) -> Seq<int> {
    seq![p.name.0 as int, b2i(p.default is Some)]
}

pub open spec fn param_kids(p: Param) -> Seq<usize> {
    match p.default {
        Some(d) => seq![p.ty.0, d.0],
        None => seq![p.ty.0],
    }
}

pub open spec fn param_kinds(p: Param) -> Seq<NodeKind> {
    match p.default {
        Some(_) => seq![NodeKind::Term, NodeKind::Term],
        None => seq![NodeKind::Term],
    }
}

pub open spec fn stmt_data(s: BlockStatement) -> Seq<int> {
    match s {
        BlockStatement::Decl { value, .. } => seq![0, b2i(value is Some)],
        BlockStatement::Expr(_) => seq![1],
    }
}

pub open spec fn stmt_kids(s: BlockStatement) -> Seq<usize> {
    match s {
        BlockStatement::Decl { bind_pat, ty, value } => match value {
            Some(v) => seq![bind_pat.0, ty.0, v.0],
            None => seq![bind_pat.0, ty.0],
        },
        BlockStatement::Expr(t) => seq![t.0],
    }
}

pub open spec fn stmt_kinds(s: BlockStatement) -> Seq<NodeKind> {
    match s {
        BlockStatement::Decl { value, .. } => match value {
            Some(_) => seq![NodeKind::Pat, NodeKind::Term, NodeKind::Term],
            None => seq![NodeKind::Pat, NodeKind::Term],
        },
        BlockStatement::Expr(_) => seq![NodeKind::Term],
    }
}

pub open spec fn case_kids(c: MatchCase) -> Seq<usize> {
    seq![c.bind_pat.0, c.value.0]
}

pub open spec fn case_kinds(c: MatchCase) -> Seq<NodeKind> {
    seq![NodeKind::Pat, NodeKind::Term]
}

pub open spec fn case_data(c: MatchCase) -> Seq<int> {
    seq![c.stack_id.0 as int]
}

pub open spec fn pat_arg_kids(a: PatArg) -> Seq<usize> {
    pat_or_capture_kids(a.pat)
}

pub open spec fn pat_arg_kinds(a: PatArg) -> Seq<NodeKind> {
    pat_or_capture_kinds(a.pat)
}

pub open spec fn pat_arg_data(a: PatArg) -> Seq<int> {
    enc_index(a.target) + pat_or_capture_data(a.pat)
}

/// The scalar data of a node.
pub open spec fn data_of(n: NodeData) -> Seq<Seq<int>> {
    match n {
        NodeData::Term(t) => seq![
            match t {
                Term::Lit(l) => seq![l.0 as int],
                Term::Ctor { ctor, .. } => seq![ctor.0 as int, ctor.1 as int],
                Term::Call { implicit, .. } => seq![b2i(implicit)],
                Term::Block { stack_id, .. } => seq![stack_id.0 as int],
                Term::Var(s) => seq![s.0 as int],
                Term::LoopControl(c) => seq![if c is Break { 0int } else { 1int }],
                Term::Access { field, .. } => enc_index(field),
                Term::Ref { kind, mutable, .. } => seq![enc_ref_kind(kind), b2i(mutable)],
                Term::Hole(s) => seq![s.0 as int],
                Term::Intrinsic(i) => seq![i.0 as int],
                Term::FnTy(f) => seq![b2i(f.implicit), b2i(f.is_unsafe), b2i(f.pure)],
                Term::RefTy { kind, mutable, .. } => seq![enc_ref_kind(kind), b2i(mutable)],
                Term::DataTy { data_def, .. } => seq![data_def.0 as int],
                _ => Seq::<int>::empty(),
            },
        ],
        NodeData::Pat(p) => seq![
            match p {
                Pat::Binding { name, is_mutable } => seq![name.0 as int, b2i(is_mutable)],
                Pat::Range { lo, hi, end } => seq![lo.0 as int, hi.0 as int, if end is Included { 0int } else { 1int }],
                Pat::Lit(l) => seq![l.0 as int],
                Pat::Tuple { data_spread, .. } => enc_spread(data_spread),
                Pat::Array { spread, .. } => enc_spread(spread),
                Pat::Ctor { ctor, ctor_pat_args_spread, .. } => seq![ctor.0 as int, ctor.1 as int]
                    + enc_spread(ctor_pat_args_spread),
                _ => Seq::<int>::empty(),
            },
        ],
        NodeData::FnDef(f) => seq![seq![f.name.0 as int, b2i(f.ty.implicit), b2i(f.ty.is_unsafe), b2i(f.ty.pure)]],
        NodeData::Args(v) => v@.map_values(|a: Arg| enc_index(a.target)),
        NodeData::Params(v) => v@.map_values(|p: Param| param_data(p)),
        NodeData::PatArgs(v) => v@.map_values(|a: PatArg| pat_arg_data(a)),
        NodeData::TermList(v) => v@.map_values(|t: TermId| Seq::<int>::empty()),
        NodeData::PatList(v) => v@.map_values(|p: PatOrCapture| pat_or_capture_data(p)),
        NodeData::Statements(v) => v@.map_values(|s: BlockStatement| stmt_data(s)),
        NodeData::Cases(v) => v@.map_values(|c: MatchCase| case_data(c)),
    }
}

/// The children of a node, in traversal order.
pub open spec fn children(n: NodeData) -> Seq<usize> {
    match n {
        NodeData::Term(t) => match t {
            Term::Tuple { data } => seq![data.0],
            Term::Array { elements } => seq![elements.0],
            Term::Ctor { data_args, ctor_args, .. } => seq![data_args.0, ctor_args.0],
            Term::Call { subject, args, .. } => seq![subject.0, args.0],
            Term::Fn(f) => seq![f.0],
            Term::Block { statements, expr, .. } => seq![statements.0, expr.0],
            Term::Loop { inner } => seq![inner.0],
            Term::Match { subject, cases } => seq![subject.0, cases.0],
            Term::Return { expression } => seq![expression.0],
            Term::Assign { subject, value } => seq![subject.0, value.0],
            Term::Unsafe { inner } => seq![inner.0],
            Term::Access { subject, .. } => seq![subject.0],
            Term::Index { subject, index } => seq![subject.0, index.0],
            Term::Cast { subject_term, target_ty } => seq![subject_term.0, target_ty.0],
            Term::TypeOf { term } => seq![term.0],
            Term::Ref { subject, .. } => seq![subject.0],
            Term::Deref { subject } => seq![subject.0],
            Term::TupleTy { data } => seq![data.0],
            Term::FnTy(f) => seq![f.params.0, f.return_ty.0],
            Term::RefTy { ty, .. } => seq![ty.0],
            Term::DataTy { args, .. } => seq![args.0],
            _ => Seq::empty(),
        },
        NodeData::Pat(p) => match p {
            Pat::Tuple { data, .. } => seq![data.0],
            Pat::Array { pats, .. } => seq![pats.0],
            Pat::Ctor { data_args, ctor_pat_args, .. } => seq![data_args.0, ctor_pat_args.0],
            Pat::Or { alternatives } => seq![alternatives.0],
            Pat::If { pat, condition } => seq![pat.0, condition.0],
            _ => Seq::empty(),
        },
        NodeData::FnDef(f) => seq![f.ty.params.0, f.ty.return_ty.0, f.body.0],
        NodeData::Args(v) => v@.map_values(|a: Arg| a.value.0),
        NodeData::Params(v) => v@.map_values(|p: Param| param_kids(p)).flatten_alt(),
        NodeData::PatArgs(v) => v@.map_values(|a: PatArg| pat_arg_kids(a)).flatten_alt(),
        NodeData::TermList(v) => v@.map_values(|t: TermId| t.0),
        NodeData::PatList(v) => v@.map_values(|p: PatOrCapture| pat_or_capture_kids(p)).flatten_alt(),
        NodeData::Statements(v) => v@.map_values(|s: BlockStatement| stmt_kids(s)).flatten_alt(),
        NodeData::Cases(v) => v@.map_values(|c: MatchCase| case_kids(c)).flatten_alt(),
    }
}

/// The kinds that the children of a node must have.
pub open spec fn child_kinds(n: NodeData) -> Seq<NodeKind> {
    match n {
        NodeData::Term(t) => match t {
            Term::Tuple { .. } => seq![NodeKind::Args],
            Term::Array { .. } => seq![NodeKind::TermList],
            Term::Ctor { .. } => seq![NodeKind::Args, NodeKind::Args],
            Term::Call { .. } => seq![NodeKind::Term, NodeKind::Args],
            Term::Fn(_) => seq![NodeKind::FnDef],
            Term::Block { .. } => seq![NodeKind::Statements, NodeKind::Term],
            Term::Loop { .. } => seq![NodeKind::Term],
            Term::Match { .. } => seq![NodeKind::Term, NodeKind::Cases],
            Term::Return { .. } => seq![NodeKind::Term],
            Term::Assign { .. } => seq![NodeKind::Term, NodeKind::Term],
            Term::Unsafe { .. } => seq![NodeKind::Term],
            Term::Access { .. } => seq![NodeKind::Term],
            Term::Index { .. } => seq![NodeKind::Term, NodeKind::Term],
            Term::Cast { .. } => seq![NodeKind::Term, NodeKind::Term],
            Term::TypeOf { .. } => seq![NodeKind::Term],
            Term::Ref { .. } => seq![NodeKind::Term],
            Term::Deref { .. } => seq![NodeKind::Term],
            Term::TupleTy { .. } => seq![NodeKind::Params],
            Term::FnTy(_) => seq![NodeKind::Params, NodeKind::Term],
            Term::RefTy { .. } => seq![NodeKind::Term],
            Term::DataTy { .. } => seq![NodeKind::Args],
            _ => Seq::empty(),
        },
        NodeData::Pat(p) => match p {
            Pat::Tuple { .. } => seq![NodeKind::PatArgs],
            Pat::Array { .. } => seq![NodeKind::PatList],
            Pat::Ctor { .. } => seq![NodeKind::Args, NodeKind::PatArgs],
            Pat::Or { .. } => seq![NodeKind::PatList],
            Pat::If { .. } => seq![NodeKind::Pat, NodeKind::Term],
            _ => Seq::empty(),
        },
        NodeData::FnDef(_) => seq![NodeKind::Params, NodeKind::Term, NodeKind::Term],
        NodeData::Args(v) => v@.map_values(|a: Arg| NodeKind::Term),
        NodeData::Params(v) => v@.map_values(|p: Param| param_kinds(p)).flatten_alt(),
        NodeData::PatArgs(v) => v@.map_values(|a: PatArg| pat_arg_kinds(a)).flatten_alt(),
        NodeData::TermList(v) => v@.map_values(|t: TermId| NodeKind::Term),
        NodeData::PatList(v) => v@.map_values(|p: PatOrCapture| pat_or_capture_kinds(p)).flatten_alt(),
        NodeData::Statements(v) => v@.map_values(|s: BlockStatement| stmt_kinds(s)).flatten_alt(),
        NodeData::Cases(v) => v@.map_values(|c: MatchCase| case_kinds(c)).flatten_alt(),
    }
}

/// A node at position `i` is well formed: its children are earlier nodes of
/// the kinds its variant requires.
pub open spec fn node_ok(t: Seq<NodeData>, i: int, n: NodeData) -> bool {
    &&& children(n).len() == child_kinds(n).len()
    &&& forall|k: int|
        0 <= k < children(n).len() ==> {
            &&& (#[trigger] children(n)[k]) < i
            &&& kind_of(t[children(n)[k] as int]) == child_kinds(n)[k]
        }
}

/// Every node of the arena is well formed.
pub open spec fn wf(t: Seq<NodeData>) -> bool {
    forall|i: int| 0 <= i < t.len() ==> node_ok(t, i, #[trigger] t[i])
}

/// `t2` extends `t1`: it holds the nodes of `t1`, unchanged, then more.
pub open spec fn extends(t2: Seq<NodeData>, t1: Seq<NodeData>) -> bool {
    &&& t1.len() <= t2.len()
    &&& forall|i: int| 0 <= i < t1.len() ==> t2[i] == t1[i]
}

/// Node `i` exists and has kind `k`.
pub open spec fn has_kind(t: Seq<NodeData>, i: usize, k: NodeKind) -> bool {
    &&& i < t.len()
    &&& kind_of(t[i as int]) == k
}

/// The trees of the children `kids` of a node at position `bound`.
pub open spec fn trees_below(t: Seq<NodeData>, kids: Seq<usize>, bound: usize) -> Seq<Tree>
    decreases bound, 0int,
{
    Seq::new(
        kids.len(),
        |k: int|
            if kids[k] < bound {
                tree(t, kids[k])
            } else {
                Tree::Node(-1, Seq::empty(), Seq::empty())
            },
    )
}

/// The tree that node `i` denotes.
pub open spec fn tree(t: Seq<NodeData>, i: usize) -> Tree
    decreases i, 1int,
{
    if i < t.len() {
        let n = t[i as int];
        Tree::Node(tag_of(n), data_of(n), trees_below(t, children(n), i))
    } else {
        Tree::Node(-1, Seq::empty(), Seq::empty())
    }
}

/// The trees of a sequence of nodes.
pub open spec fn trees(t: Seq<NodeData>, ids: Seq<usize>) -> Seq<Tree> {
    Seq::new(ids.len(), |k: int| tree(t, ids[k]))
}

/// A node's tree is built from its tag, its data and its children's trees.
pub proof fn lemma_tree_unfold(t: Seq<NodeData>, i: usize)
    requires
        wf(t),
        i < t.len(),
    ensures
        tree(t, i) == Tree::Node(tag_of(t[i as int]), data_of(t[i as int]), trees(t, children(t[i as int]))),
{
    let n = t[i as int];
    let kids = children(n);
    assert(node_ok(t, i as int, n));
    assert forall|k: int| 0 <= k < kids.len() implies trees_below(t, kids, i)[k] == trees(t, kids)[k] by {
        assert(kids[k] < i);
    }
    assert(trees_below(t, kids, i) =~= trees(t, kids));
}

/// Extending the arena leaves the trees of its nodes unchanged.
pub proof fn lemma_tree_stable(t1: Seq<NodeData>, t2: Seq<NodeData>, i: usize)
    requires
        wf(t1),
        extends(t2, t1),
        i < t1.len(),
    ensures
        tree(t2, i) == tree(t1, i),
    decreases i,
{
    let n = t1[i as int];
    assert(node_ok(t1, i as int, n));
    let kids = children(n);
    assert forall|k: int| 0 <= k < kids.len() implies trees_below(t2, kids, i)[k] == trees_below(t1, kids, i)[k] by {
        lemma_tree_stable(t1, t2, kids[k]);
    }
    assert(t2[i as int] == n);
    assert(trees_below(t2, kids, i) =~= trees_below(t1, kids, i));
}

/// Extending the arena leaves the trees of its nodes unchanged.
pub proof fn lemma_trees_stable(t1: Seq<NodeData>, t2: Seq<NodeData>, ids: Seq<usize>)
    requires
        wf(t1),
        extends(t2, t1),
        forall|k: int| 0 <= k < ids.len() ==> ids[k] < t1.len(),
    ensures
        trees(t2, ids) == trees(t1, ids),
{
    assert forall|k: int| 0 <= k < ids.len() implies trees(t2, ids)[k] == trees(t1, ids)[k] by {
        lemma_tree_stable(t1, t2, ids[k]);
    }
    assert(trees(t2, ids) =~= trees(t1, ids));
}

/// The TIR store: the arena of nodes and the symbol table.
pub struct Tir {
    pub nodes: Vec<NodeData>,
    pub symbols: Vec<SymbolData>,
}

impl Tir {
    /// The store is well formed.
    pub open spec fn inv(&self) -> bool {
        wf(self.nodes@)
    }

    /// `t` is a term of this store.
    pub open spec fn is_term(&self, t: TermId) -> bool {
        has_kind(self.nodes@, t.0, NodeKind::Term)
    }

    /// An empty store.
    pub fn new() -> (r: Self)
        ensures
            r.nodes@.len() == 0,
            r.symbols@.len() == 0,
            r.inv(),
    {
        Tir { nodes: Vec::new(), symbols: Vec::new() }
    }

    /// Append a node whose children are all existing nodes of the right
    /// kinds, returning its index.
    pub fn push_node(&mut self, n: NodeData) -> (r: usize)
        requires
            old(self).inv(),
            node_ok(old(self).nodes@, old(self).nodes@.len() as int, n),
        ensures
            final(self).inv(),
            r == old(self).nodes@.len(),
            final(self).nodes@ == old(self).nodes@.push(n),
            final(self).symbols == old(self).symbols,
            extends(final(self).nodes@, old(self).nodes@),
    {
        let r = self.nodes.len();
        self.nodes.push(n);
        proof {
            let t = self.nodes@;
            assert forall|i: int| 0 <= i < t.len() implies node_ok(t, i, #[trigger] t[i]) by {
                if i < r {
                    assert(node_ok(old(self).nodes@, i, old(self).nodes@[i]));
                    let m = t[i];
                    assert forall|k: int| 0 <= k < children(m).len() implies {
                        &&& (#[trigger] children(m)[k]) < i
                        &&& kind_of(t[children(m)[k] as int]) == child_kinds(m)[k]
                    } by {
                        assert(children(m)[k] < i);
                    }
                } else {
                    assert forall|k: int| 0 <= k < children(n).len() implies {
                        &&& (#[trigger] children(n)[k]) < i
                        &&& kind_of(t[children(n)[k] as int]) == child_kinds(n)[k]
                    } by {
                        assert(children(n)[k] < r);
                    }
                }
            }
        }
        r
    }

    /// The node at position `i`.
    pub fn node(&self, i: usize) -> (r: &NodeData)
        requires
            i < self.nodes@.len(),
        ensures
            *r == self.nodes@[i as int],
    {
        &self.nodes[i]
    }

    /// The term at `t`.
    pub fn get_term(&self, t: TermId) -> (r: Term)
        requires
            self.is_term(t),
        ensures
            self.nodes@[t.0 as int] == NodeData::Term(r),
    {
        match &self.nodes[t.0] {
            NodeData::Term(term) => *term,
            _ => {
                proof {
                    assert(false);
                }
                Term::Universe
            },
        }
    }

    /// Create a new term whose children are existing nodes.
    pub fn new_term(&mut self, term: Term) -> (r: TermId)
        requires
            old(self).inv(),
            node_ok(old(self).nodes@, old(self).nodes@.len() as int, NodeData::Term(term)),
        ensures
            final(self).inv(),
            r.0 == old(self).nodes@.len(),
            final(self).nodes@ == old(self).nodes@.push(NodeData::Term(term)),
            final(self).symbols == old(self).symbols,
    {
        TermId(self.push_node(NodeData::Term(term)))
    }

    /// The identifier of a symbol, if it has one.
    pub fn symbol_name(&self, s: SymbolId) -> (r: Option<Identifier>)
        requires
            s.0 < self.symbols@.len(),
        ensures
            r == self.symbols@[s.0 as int].name,
    {
        self.symbols[s.0].name
    }

    /// Create a new symbol with no identifier.
    pub fn fresh_symbol(&mut self) -> (r: SymbolId)
        ensures
            r.0 == old(self).symbols@.len(),
            final(self).symbols@ == old(self).symbols@.push(SymbolData { name: None }),
            final(self).nodes == old(self).nodes,
    {
        let r = self.symbols.len();
        self.symbols.push(SymbolData { name: None });
        SymbolId(r)
    }

    /// Create a new symbol with the given identifier.
    pub fn symbol_from_name(&mut self, name: Identifier) -> (r: SymbolId)
        ensures
            r.0 == old(self).symbols@.len(),
            final(self).symbols@ == old(self).symbols@.push(SymbolData { name: Some(name) }),
            final(self).nodes == old(self).nodes,
    {
        let r = self.symbols.len();
        self.symbols.push(SymbolData { name: Some(name) });
        SymbolId(r)
    }
}


/// Flattening one more element appends its sequence.
pub proof fn lemma_flat_step<A>(s: Seq<Seq<A>>, k: int)
    requires
        0 <= k < s.len(),
    ensures
        s.take(k + 1).flatten_alt() == s.take(k).flatten_alt() + s[k],
{
    assert(s.take(k + 1).drop_last() =~= s.take(k));
}

/// The children of a sequence node are well placed when those of each of
/// its elements are.
pub proof fn lemma_flat_ok(t: Seq<NodeData>, i: int, ks: Seq<Seq<usize>>, kinds: Seq<Seq<NodeKind>>)
    requires
        ks.len() == kinds.len(),
        forall|e: int| 0 <= e < ks.len() ==> (#[trigger] ks[e]).len() == kinds[e].len(),
        forall|e: int, k: int|
            0 <= e < ks.len() && 0 <= k < ks[e].len() ==> (#[trigger] ks[e][k]) < i && kind_of(
                t[ks[e][k] as int],
            ) == kinds[e][k],
    ensures
        ks.flatten_alt().len() == kinds.flatten_alt().len(),
        forall|m: int|
            0 <= m < ks.flatten_alt().len() ==> (#[trigger] ks.flatten_alt()[m]) < i && kind_of(
                t[ks.flatten_alt()[m] as int],
            ) == kinds.flatten_alt()[m],
    decreases ks.len(),
{
    if ks.len() > 0 {
        let ks0 = ks.drop_last();
        let kinds0 = kinds.drop_last();
        assert forall|e: int| 0 <= e < ks0.len() implies (#[trigger] ks0[e]).len() == kinds0[e].len() by {
            assert(ks0[e] == ks[e]);
        }
        assert forall|e: int, k: int| 0 <= e < ks0.len() && 0 <= k < ks0[e].len() implies (#[trigger] ks0[e][k]) < i
            && kind_of(t[ks0[e][k] as int]) == kinds0[e][k] by {
            assert(ks0[e] == ks[e]);
            assert(kinds0[e] == kinds[e]);
            assert(ks[e][k] < i);
        }
        lemma_flat_ok(t, i, ks0, kinds0);
        let a = ks0.flatten_alt();
        let b = kinds0.flatten_alt();
        let e = ks.len() - 1;
        assert(ks.flatten_alt() == a + ks[e]);
        assert(kinds.flatten_alt() == b + kinds[e]);
        assert forall|m: int| 0 <= m < ks.flatten_alt().len() implies (#[trigger] ks.flatten_alt()[m]) < i
            && kind_of(t[ks.flatten_alt()[m] as int]) == kinds.flatten_alt()[m] by {
            if m >= a.len() {
                let k = m - a.len();
                assert(ks.flatten_alt()[m] == ks[e][k]);
                assert(kinds.flatten_alt()[m] == kinds[e][k]);
                assert(ks[e][k] < i);
            } else {
                assert(ks.flatten_alt()[m] == a[m]);
                assert(a[m] < i);
            }
        }
    }
}

/// The children of each element are found, with their kinds, in the
/// flattened children.
pub proof fn lemma_flat_index<A, B>(ks: Seq<Seq<A>>, kinds: Seq<Seq<B>>, e: int, k: int)
    requires
        ks.len() == kinds.len(),
        forall|x: int| 0 <= x < ks.len() ==> (#[trigger] ks[x]).len() == kinds[x].len(),
        0 <= e < ks.len(),
        0 <= k < ks[e].len(),
    ensures
        ks.flatten_alt().len() == kinds.flatten_alt().len(),
        exists|m: int|
            0 <= m < ks.flatten_alt().len() && ks.flatten_alt()[m] == ks[e][k]
                && kinds.flatten_alt()[m] == kinds[e][k],
    decreases ks.len(),
{
    let ks0 = ks.drop_last();
    let kinds0 = kinds.drop_last();
    let last = ks.len() - 1;
    assert forall|x: int| 0 <= x < ks0.len() implies (#[trigger] ks0[x]).len() == kinds0[x].len() by {
        assert(ks0[x] == ks[x]);
    }
    assert(ks.flatten_alt() == ks0.flatten_alt() + ks[last]);
    assert(kinds.flatten_alt() == kinds0.flatten_alt() + kinds[last]);
    if e == last {
        lemma_flat_len(ks0, kinds0);
        let m = ks0.flatten_alt().len() + k;
        assert(ks.flatten_alt()[m] == ks[e][k]);
        assert(kinds.flatten_alt()[m] == kinds[e][k]);
    } else {
        assert(ks0[e] == ks[e]);
        assert(kinds0[e] == kinds[e]);
        lemma_flat_index(ks0, kinds0, e, k);
        let m = choose|m: int|
            0 <= m < ks0.flatten_alt().len() && ks0.flatten_alt()[m] == ks0[e][k]
                && kinds0.flatten_alt()[m] == kinds0[e][k];
        assert(ks.flatten_alt()[m] == ks[e][k]);
        assert(kinds.flatten_alt()[m] == kinds[e][k]);
    }
}

/// Sequences of sequences of equal lengths flatten to equal lengths.
pub proof fn lemma_flat_len<A, B>(ks: Seq<Seq<A>>, kinds: Seq<Seq<B>>)
    requires
        ks.len() == kinds.len(),
        forall|x: int| 0 <= x < ks.len() ==> (#[trigger] ks[x]).len() == kinds[x].len(),
    ensures
        ks.flatten_alt().len() == kinds.flatten_alt().len(),
    decreases ks.len(),
{
    if ks.len() > 0 {
        let ks0 = ks.drop_last();
        let kinds0 = kinds.drop_last();
        assert forall|x: int| 0 <= x < ks0.len() implies (#[trigger] ks0[x]).len() == kinds0[x].len() by {
            assert(ks0[x] == ks[x]);
        }
        lemma_flat_len(ks0, kinds0);
    }
}

/// A prefix flattens to no more than the whole.
pub proof fn lemma_flat_prefix_len<A>(s: Seq<Seq<A>>, k: int)
    requires
        0 <= k <= s.len(),
    ensures
        s.take(k).flatten_alt().len() <= s.flatten_alt().len(),
    decreases s.len() - k,
{
    if k < s.len() {
        lemma_flat_step(s, k);
        lemma_flat_prefix_len(s, k + 1);
    } else {
        assert(s.take(k) =~= s);
    }
}

/// The children of a node, computed.
pub fn children_of(n: &NodeData) -> (r: Vec<usize>)
    ensures
        r@ == children(*n),
{
    let mut out: Vec<usize> = Vec::new();
    match n {
        NodeData::Term(t) => match t {
            Term::Tuple { data } => { out.push(data.0); },
            Term::Array { elements } => { out.push(elements.0); },
            Term::Ctor { data_args, ctor_args, .. } => { out.push(data_args.0); out.push(ctor_args.0); },
            Term::Call { subject, args, .. } => { out.push(subject.0); out.push(args.0); },
            Term::Fn(f) => { out.push(f.0); },
            Term::Block { statements, expr, .. } => { out.push(statements.0); out.push(expr.0); },
            Term::Loop { inner } => { out.push(inner.0); },
            Term::Match { subject, cases } => { out.push(subject.0); out.push(cases.0); },
            Term::Return { expression } => { out.push(expression.0); },
            Term::Assign { subject, value } => { out.push(subject.0); out.push(value.0); },
            Term::Unsafe { inner } => { out.push(inner.0); },
            Term::Access { subject, .. } => { out.push(subject.0); },
            Term::Index { subject, index } => { out.push(subject.0); out.push(index.0); },
            Term::Cast { subject_term, target_ty } => { out.push(subject_term.0); out.push(target_ty.0); },
            Term::TypeOf { term } => { out.push(term.0); },
            Term::Ref { subject, .. } => { out.push(subject.0); },
            Term::Deref { subject } => { out.push(subject.0); },
            Term::TupleTy { data } => { out.push(data.0); },
            Term::FnTy(f) => { out.push(f.params.0); out.push(f.return_ty.0); },
            Term::RefTy { ty, .. } => { out.push(ty.0); },
            Term::DataTy { args, .. } => { out.push(args.0); },
            _ => {},
        },
        NodeData::Pat(p) => match p {
            Pat::Tuple { data, .. } => { out.push(data.0); },
            Pat::Array { pats, .. } => { out.push(pats.0); },
            Pat::Ctor { data_args, ctor_pat_args, .. } => { out.push(data_args.0); out.push(ctor_pat_args.0); },
            Pat::Or { alternatives } => { out.push(alternatives.0); },
            Pat::If { pat, condition } => { out.push(pat.0); out.push(condition.0); },
            _ => {},
        },
        NodeData::FnDef(f) => { out.push(f.ty.params.0); out.push(f.ty.return_ty.0); out.push(f.body.0); },
        NodeData::Args(v) => {
            let mut k: usize = 0;
            while k < v.len()
                invariant
                    k <= v@.len(),
                    out@ == v@.map_values(|a: Arg| a.value.0).take(k as int),
                decreases v@.len() - k,
            {
                out.push(v[k].value.0);
                assert(v@.map_values(|a: Arg| a.value.0).take(k + 1) =~= v@.map_values(|a: Arg| a.value.0).take(k as int).push(v@[k as int].value.0));
                k = k + 1;
            }
            assert(v@.map_values(|a: Arg| a.value.0).take(k as int) =~= v@.map_values(|a: Arg| a.value.0));
        },
        NodeData::TermList(v) => {
            let mut k: usize = 0;
            while k < v.len()
                invariant
                    k <= v@.len(),
                    out@ == v@.map_values(|t: TermId| t.0).take(k as int),
                decreases v@.len() - k,
            {
                out.push(v[k].0);
                assert(v@.map_values(|t: TermId| t.0).take(k + 1) =~= v@.map_values(|t: TermId| t.0).take(k as int).push(v@[k as int].0));
                k = k + 1;
            }
            assert(v@.map_values(|t: TermId| t.0).take(k as int) =~= v@.map_values(|t: TermId| t.0));
        },
        NodeData::Params(v) => {
            let ghost s = v@.map_values(|p: Param| param_kids(p));
            let mut k: usize = 0;
            while k < v.len()
                invariant
                    k <= v@.len(),
                    s == v@.map_values(|p: Param| param_kids(p)),
                    out@ == s.take(k as int).flatten_alt(),
                decreases v@.len() - k,
            {
                let p = v[k];
                out.push(p.ty.0);
                if let Some(d) = p.default {
                    out.push(d.0);
                }
                proof { lemma_flat_step(s, k as int); }
                assert(out@ == s.take(k as int).flatten_alt() + s[k as int]);
                k = k + 1;
            }
            assert(s.take(k as int) =~= s);
        },
        NodeData::PatArgs(v) => {
            let ghost s = v@.map_values(|a: PatArg| pat_arg_kids(a));
            let mut k: usize = 0;
            while k < v.len()
                invariant
                    k <= v@.len(),
                    s == v@.map_values(|a: PatArg| pat_arg_kids(a)),
                    out@ == s.take(k as int).flatten_alt(),
                decreases v@.len() - k,
            {
                if let PatOrCapture::Pat(q) = v[k].pat {
                    out.push(q.0);
                }
                proof { lemma_flat_step(s, k as int); }
                assert(out@ == s.take(k as int).flatten_alt() + s[k as int]);
                k = k + 1;
            }
            assert(s.take(k as int) =~= s);
        },
        NodeData::PatList(v) => {
            let ghost s = v@.map_values(|p: PatOrCapture| pat_or_capture_kids(p));
            let mut k: usize = 0;
            while k < v.len()
                invariant
                    k <= v@.len(),
                    s == v@.map_values(|p: PatOrCapture| pat_or_capture_kids(p)),
                    out@ == s.take(k as int).flatten_alt(),
                decreases v@.len() - k,
            {
                if let PatOrCapture::Pat(q) = v[k] {
                    out.push(q.0);
                }
                proof { lemma_flat_step(s, k as int); }
                assert(out@ == s.take(k as int).flatten_alt() + s[k as int]);
                k = k + 1;
            }
            assert(s.take(k as int) =~= s);
        },
        NodeData::Statements(v) => {
            let ghost s = v@.map_values(|st: BlockStatement| stmt_kids(st));
            let mut k: usize = 0;
            while k < v.len()
                invariant
                    k <= v@.len(),
                    s == v@.map_values(|st: BlockStatement| stmt_kids(st)),
                    out@ == s.take(k as int).flatten_alt(),
                decreases v@.len() - k,
            {
                match v[k] {
                    BlockStatement::Decl { bind_pat, ty, value } => {
                        out.push(bind_pat.0);
                        out.push(ty.0);
                        if let Some(val) = value {
                            out.push(val.0);
                        }
                    },
                    BlockStatement::Expr(e) => { out.push(e.0); },
                }
                proof { lemma_flat_step(s, k as int); }
                assert(out@ == s.take(k as int).flatten_alt() + s[k as int]);
                k = k + 1;
            }
            assert(s.take(k as int) =~= s);
        },
        NodeData::Cases(v) => {
            let ghost s = v@.map_values(|c: MatchCase| case_kids(c));
            let mut k: usize = 0;
            while k < v.len()
                invariant
                    k <= v@.len(),
                    s == v@.map_values(|c: MatchCase| case_kids(c)),
                    out@ == s.take(k as int).flatten_alt(),
                decreases v@.len() - k,
            {
                out.push(v[k].bind_pat.0);
                out.push(v[k].value.0);
                proof { lemma_flat_step(s, k as int); }
                assert(out@ == s.take(k as int).flatten_alt() + s[k as int]);
                k = k + 1;
            }
            assert(s.take(k as int) =~= s);
        },
    }
    out
}

/// A node of the same variant and data as `n`, with the given children.
pub fn rebuild(n: &NodeData, kids: &Vec<usize>) -> (r: NodeData)
    requires
        kids@.len() == children(*n).len(),
    ensures
        kind_of(r) == kind_of(*n),
        tag_of(r) == tag_of(*n),
        data_of(r) == data_of(*n),
        child_kinds(r) == child_kinds(*n),
        children(r) == kids@,
{
    match n {
        NodeData::Term(t) => {
            let nt = match *t {
                Term::Tuple { .. } => Term::Tuple { data: ArgsId(kids[0]) },
                Term::Array { .. } => Term::Array { elements: TermListId(kids[0]) },
                Term::Ctor { ctor, .. } => Term::Ctor { ctor, data_args: ArgsId(kids[0]), ctor_args: ArgsId(kids[1]) },
                Term::Call { implicit, .. } => Term::Call { subject: TermId(kids[0]), args: ArgsId(kids[1]), implicit },
                Term::Fn(_) => Term::Fn(FnDefId(kids[0])),
                Term::Block { stack_id, .. } => Term::Block { statements: BlockStatementsId(kids[0]), stack_id, expr: TermId(kids[1]) },
                Term::Loop { .. } => Term::Loop { inner: TermId(kids[0]) },
                Term::Match { .. } => Term::Match { subject: TermId(kids[0]), cases: MatchCasesId(kids[1]) },
                Term::Return { .. } => Term::Return { expression: TermId(kids[0]) },
                Term::Assign { .. } => Term::Assign { subject: TermId(kids[0]), value: TermId(kids[1]) },
                Term::Unsafe { .. } => Term::Unsafe { inner: TermId(kids[0]) },
                Term::Access { field, .. } => Term::Access { subject: TermId(kids[0]), field },
                Term::Index { .. } => Term::Index { subject: TermId(kids[0]), index: TermId(kids[1]) },
                Term::Cast { .. } => Term::Cast { subject_term: TermId(kids[0]), target_ty: TermId(kids[1]) },
                Term::TypeOf { .. } => Term::TypeOf { term: TermId(kids[0]) },
                Term::Ref { kind, mutable, .. } => Term::Ref { subject: TermId(kids[0]), kind, mutable },
                Term::Deref { .. } => Term::Deref { subject: TermId(kids[0]) },
                Term::TupleTy { .. } => Term::TupleTy { data: ParamsId(kids[0]) },
                Term::FnTy(f) => Term::FnTy(FnTy { params: ParamsId(kids[0]), return_ty: TermId(kids[1]), ..f }),
                Term::RefTy { kind, mutable, .. } => Term::RefTy { ty: TermId(kids[0]), kind, mutable },
                Term::DataTy { data_def, .. } => Term::DataTy { data_def, args: ArgsId(kids[0]) },
                other => other,
            };
            let r = NodeData::Term(nt);
            assert(children(r) =~= kids@);
            r
        },
        NodeData::Pat(p) => {
            let np = match *p {
                Pat::Tuple { data_spread, .. } => Pat::Tuple { data: PatArgsId(kids[0]), data_spread },
                Pat::Array { spread, .. } => Pat::Array { pats: PatListId(kids[0]), spread },
                Pat::Ctor { ctor, ctor_pat_args_spread, .. } => Pat::Ctor { ctor, data_args: ArgsId(kids[0]), ctor_pat_args: PatArgsId(kids[1]), ctor_pat_args_spread },
                Pat::Or { .. } => Pat::Or { alternatives: PatListId(kids[0]) },
                Pat::If { .. } => Pat::If { pat: PatId(kids[0]), condition: TermId(kids[1]) },
                other => other,
            };
            let r = NodeData::Pat(np);
            assert(children(r) =~= kids@);
            r
        },
        NodeData::FnDef(f) => {
            let r = NodeData::FnDef(FnDef { name: f.name, ty: FnTy { params: ParamsId(kids[0]), return_ty: TermId(kids[1]), ..f.ty }, body: TermId(kids[2]) });
            assert(children(r) =~= kids@);
            r
        },
        NodeData::Args(v) => {
            let mut out: Vec<Arg> = Vec::new();
            let mut k: usize = 0;
            while k < v.len()
                invariant
                    k <= v@.len(),
                    kids@.len() == v@.len(),
                    out@.len() == k,
                    forall|j: int| 0 <= j < k ==> (#[trigger] out@[j]).target == v@[j].target && out@[j].value.0 == kids@[j],
                decreases v@.len() - k,
            {
                out.push(Arg { target: v[k].target, value: TermId(kids[k]) });
                k = k + 1;
            }
            let r = NodeData::Args(out);
            assert(children(r) =~= kids@);
            assert(data_of(r) =~= data_of(*n));
            assert(child_kinds(r) =~= child_kinds(*n));
            r
        },
        NodeData::TermList(v) => {
            let mut out: Vec<TermId> = Vec::new();
            let mut k: usize = 0;
            while k < v.len()
                invariant
                    k <= v@.len(),
                    kids@.len() == v@.len(),
                    out@.len() == k,
                    forall|j: int| 0 <= j < k ==> (#[trigger] out@[j]).0 == kids@[j],
                decreases v@.len() - k,
            {
                out.push(TermId(kids[k]));
                k = k + 1;
            }
            let r = NodeData::TermList(out);
            assert(children(r) =~= kids@);
            assert(data_of(r) =~= data_of(*n));
            assert(child_kinds(r) =~= child_kinds(*n));
            r
        },
        NodeData::Params(v) => {
            let ghost s = v@.map_values(|e: Param| param_kids(e));
            let mut out: Vec<Param> = Vec::new();
            let mut off: usize = 0;
            let kl: usize = kids.len();
            let mut k: usize = 0;
            while k < v.len()
                invariant
                    kl == kids@.len(),
                    k <= v@.len(),
                    s == v@.map_values(|e: Param| param_kids(e)),
                    kids@.len() == s.flatten_alt().len(),
                    off == s.take(k as int).flatten_alt().len(),
                    out@.len() == k,
                    forall|j: int| 0 <= j < k ==> param_data(#[trigger] out@[j]) == param_data(v@[j]) && param_kinds(out@[j]) == param_kinds(v@[j]),
                    out@.map_values(|e: Param| param_kids(e)).flatten_alt() == kids@.take(off as int),
                decreases v@.len() - k,
            {
                proof {
                    lemma_flat_step(s, k as int);
                    lemma_flat_prefix_len(s, k + 1);
                }
                let e = v[k];
                assert(s[k as int] == param_kids(e));
                let c: usize = if e.default.is_some() { 2 } else { 1 };
                let d = if e.default.is_some() { Some(TermId(kids[off + 1])) } else { None };
                let ne = Param { name: e.name, ty: TermId(kids[off]), default: d };
                let ghost old_out = out@;
                out.push(ne);
                proof {
                    let om = out@.map_values(|e: Param| param_kids(e));
                    assert(om.drop_last() =~= old_out.map_values(|e: Param| param_kids(e)));
                    assert(kids@.take(off as int) + param_kids(ne) =~= kids@.take((off + c) as int));
                }
                off = off + c;
                k = k + 1;
            }
            assert(s.take(k as int) =~= s);
            assert(kids@.take(off as int) =~= kids@);
            let r = NodeData::Params(out);
            assert(data_of(r) =~= data_of(*n));
            assert(out@.map_values(|e: Param| param_kinds(e)) =~= v@.map_values(|e: Param| param_kinds(e)));
            r
        },
        NodeData::PatArgs(v) => {
            let ghost s = v@.map_values(|e: PatArg| pat_arg_kids(e));
            let mut out: Vec<PatArg> = Vec::new();
            let mut off: usize = 0;
            let kl: usize = kids.len();
            let mut k: usize = 0;
            while k < v.len()
                invariant
                    kl == kids@.len(),
                    k <= v@.len(),
                    s == v@.map_values(|e: PatArg| pat_arg_kids(e)),
                    kids@.len() == s.flatten_alt().len(),
                    off == s.take(k as int).flatten_alt().len(),
                    out@.len() == k,
                    forall|j: int| 0 <= j < k ==> pat_arg_data(#[trigger] out@[j]) == pat_arg_data(v@[j]) && pat_arg_kinds(out@[j]) == pat_arg_kinds(v@[j]),
                    out@.map_values(|e: PatArg| pat_arg_kids(e)).flatten_alt() == kids@.take(off as int),
                decreases v@.len() - k,
            {
                proof {
                    lemma_flat_step(s, k as int);
                    lemma_flat_prefix_len(s, k + 1);
                }
                let e = v[k];
                assert(s[k as int] == pat_arg_kids(e));
                let (ne, c) = match e.pat {
                    PatOrCapture::Pat(_) => (PatArg { target: e.target, pat: PatOrCapture::Pat(PatId(kids[off])) }, 1usize),
                    PatOrCapture::Capture => (PatArg { target: e.target, pat: PatOrCapture::Capture }, 0usize),
                };
                let ghost old_out = out@;
                out.push(ne);
                proof {
                    let om = out@.map_values(|e: PatArg| pat_arg_kids(e));
                    assert(om.drop_last() =~= old_out.map_values(|e: PatArg| pat_arg_kids(e)));
                    assert(kids@.take(off as int) + pat_arg_kids(ne) =~= kids@.take((off + c) as int));
                }
                off = off + c;
                k = k + 1;
            }
            assert(s.take(k as int) =~= s);
            assert(kids@.take(off as int) =~= kids@);
            let r = NodeData::PatArgs(out);
            assert(data_of(r) =~= data_of(*n));
            assert(out@.map_values(|e: PatArg| pat_arg_kinds(e)) =~= v@.map_values(|e: PatArg| pat_arg_kinds(e)));
            r
        },
        NodeData::PatList(v) => {
            let ghost s = v@.map_values(|e: PatOrCapture| pat_or_capture_kids(e));
            let mut out: Vec<PatOrCapture> = Vec::new();
            let mut off: usize = 0;
            let kl: usize = kids.len();
            let mut k: usize = 0;
            while k < v.len()
                invariant
                    kl == kids@.len(),
                    k <= v@.len(),
                    s == v@.map_values(|e: PatOrCapture| pat_or_capture_kids(e)),
                    kids@.len() == s.flatten_alt().len(),
                    off == s.take(k as int).flatten_alt().len(),
                    out@.len() == k,
                    forall|j: int| 0 <= j < k ==> pat_or_capture_data(#[trigger] out@[j]) == pat_or_capture_data(v@[j]) && pat_or_capture_kinds(out@[j]) == pat_or_capture_kinds(v@[j]),
                    out@.map_values(|e: PatOrCapture| pat_or_capture_kids(e)).flatten_alt() == kids@.take(off as int),
                decreases v@.len() - k,
            {
                proof {
                    lemma_flat_step(s, k as int);
                    lemma_flat_prefix_len(s, k + 1);
                }
                let e = v[k];
                assert(s[k as int] == pat_or_capture_kids(e));
                let (ne, c) = match e {
                    PatOrCapture::Pat(_) => (PatOrCapture::Pat(PatId(kids[off])), 1usize),
                    PatOrCapture::Capture => (PatOrCapture::Capture, 0usize),
                };
                let ghost old_out = out@;
                out.push(ne);
                proof {
                    let om = out@.map_values(|e: PatOrCapture| pat_or_capture_kids(e));
                    assert(om.drop_last() =~= old_out.map_values(|e: PatOrCapture| pat_or_capture_kids(e)));
                    assert(kids@.take(off as int) + pat_or_capture_kids(ne) =~= kids@.take((off + c) as int));
                }
                off = off + c;
                k = k + 1;
            }
            assert(s.take(k as int) =~= s);
            assert(kids@.take(off as int) =~= kids@);
            let r = NodeData::PatList(out);
            assert(data_of(r) =~= data_of(*n));
            assert(out@.map_values(|e: PatOrCapture| pat_or_capture_kinds(e)) =~= v@.map_values(|e: PatOrCapture| pat_or_capture_kinds(e)));
            r
        },
        NodeData::Statements(v) => {
            let ghost s = v@.map_values(|e: BlockStatement| stmt_kids(e));
            let mut out: Vec<BlockStatement> = Vec::new();
            let mut off: usize = 0;
            let kl: usize = kids.len();
            let mut k: usize = 0;
            while k < v.len()
                invariant
                    kl == kids@.len(),
                    k <= v@.len(),
                    s == v@.map_values(|e: BlockStatement| stmt_kids(e)),
                    kids@.len() == s.flatten_alt().len(),
                    off == s.take(k as int).flatten_alt().len(),
                    out@.len() == k,
                    forall|j: int| 0 <= j < k ==> stmt_data(#[trigger] out@[j]) == stmt_data(v@[j]) && stmt_kinds(out@[j]) == stmt_kinds(v@[j]),
                    out@.map_values(|e: BlockStatement| stmt_kids(e)).flatten_alt() == kids@.take(off as int),
                decreases v@.len() - k,
            {
                proof {
                    lemma_flat_step(s, k as int);
                    lemma_flat_prefix_len(s, k + 1);
                }
                let e = v[k];
                assert(s[k as int] == stmt_kids(e));
                let (ne, c) = match e {
                    BlockStatement::Decl { value, .. } => match value {
                        Some(_) => (BlockStatement::Decl { bind_pat: PatId(kids[off]), ty: TermId(kids[off + 1]), value: Some(TermId(kids[off + 2])) }, 3usize),
                        None => (BlockStatement::Decl { bind_pat: PatId(kids[off]), ty: TermId(kids[off + 1]), value: None }, 2usize),
                    },
                    BlockStatement::Expr(_) => (BlockStatement::Expr(TermId(kids[off])), 1usize),
                };
                let ghost old_out = out@;
                out.push(ne);
                proof {
                    let om = out@.map_values(|e: BlockStatement| stmt_kids(e));
                    assert(om.drop_last() =~= old_out.map_values(|e: BlockStatement| stmt_kids(e)));
                    assert(kids@.take(off as int) + stmt_kids(ne) =~= kids@.take((off + c) as int));
                }
                off = off + c;
                k = k + 1;
            }
            assert(s.take(k as int) =~= s);
            assert(kids@.take(off as int) =~= kids@);
            let r = NodeData::Statements(out);
            assert(data_of(r) =~= data_of(*n));
            assert(out@.map_values(|e: BlockStatement| stmt_kinds(e)) =~= v@.map_values(|e: BlockStatement| stmt_kinds(e)));
            r
        },
        NodeData::Cases(v) => {
            let ghost s = v@.map_values(|e: MatchCase| case_kids(e));
            let mut out: Vec<MatchCase> = Vec::new();
            let mut off: usize = 0;
            let kl: usize = kids.len();
            let mut k: usize = 0;
            while k < v.len()
                invariant
                    kl == kids@.len(),
                    k <= v@.len(),
                    s == v@.map_values(|e: MatchCase| case_kids(e)),
                    kids@.len() == s.flatten_alt().len(),
                    off == s.take(k as int).flatten_alt().len(),
                    out@.len() == k,
                    forall|j: int| 0 <= j < k ==> case_data(#[trigger] out@[j]) == case_data(v@[j]) && case_kinds(out@[j]) == case_kinds(v@[j]),
                    out@.map_values(|e: MatchCase| case_kids(e)).flatten_alt() == kids@.take(off as int),
                decreases v@.len() - k,
            {
                proof {
                    lemma_flat_step(s, k as int);
                    lemma_flat_prefix_len(s, k + 1);
                }
                let e = v[k];
                assert(s[k as int] == case_kids(e));
                let c: usize = 2;
                let ne = MatchCase { bind_pat: PatId(kids[off]), value: TermId(kids[off + 1]), stack_id: e.stack_id };
                let ghost old_out = out@;
                out.push(ne);
                proof {
                    let om = out@.map_values(|e: MatchCase| case_kids(e));
                    assert(om.drop_last() =~= old_out.map_values(|e: MatchCase| case_kids(e)));
                    assert(kids@.take(off as int) + case_kids(ne) =~= kids@.take((off + c) as int));
                }
                off = off + c;
                k = k + 1;
            }
            assert(s.take(k as int) =~= s);
            assert(kids@.take(off as int) =~= kids@);
            let r = NodeData::Cases(out);
            assert(data_of(r) =~= data_of(*n));
            assert(out@.map_values(|e: MatchCase| case_kinds(e)) =~= v@.map_values(|e: MatchCase| case_kinds(e)));
            r
        },
    }
}

} // verus!

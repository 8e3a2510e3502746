//! Making patterns of the typed intermediate representation from resolved
//! paths.

use vstd::prelude::*;

use crate::reporting::SourceLocation;
use crate::semantic_error::SemanticError;
use crate::tir::context::ModDefId;
use crate::tir::params::args_at;
use crate::tir::store::{
    has_kind, ArgsId, CtorDefId, DataDefId, FnDefId, NodeData, NodeKind, Pat, PatArgsId, PatId, Spread,
    SymbolId, TermId, Tir,
};

verus! {

/// A constructor pattern: the constructor, the arguments of its data type,
/// and the patterns of its fields with a spread, if any.
#[derive(Debug, Clone, Copy, PartialEq, Eq, Structural)]
pub struct CtorPat {
    pub ctor: CtorDefId,
    pub data_args: ArgsId,
    pub ctor_pat_args: PatArgsId,
    pub ctor_pat_args_spread: Option<Spread>,
}

/// A constructor call: the constructor, the arguments of its data type,
/// and the arguments of the constructor.
#[derive(Debug, Clone, Copy, PartialEq, Eq, Structural)]
pub struct CtorTerm {
    pub ctor: CtorDefId,
    pub data_args: ArgsId,
    pub ctor_args: ArgsId,
}

/// A path resolved to something that is not a value: a data type applied
/// to arguments, or a module.
#[derive(Debug, Clone, Copy, PartialEq, Eq, Structural)]
pub enum NonTerminalResolvedPathComponent {
    Data(DataDefId, ArgsId),
    Mod(ModDefId),
}

/// A path resolved to a value or a pattern.
#[derive(Debug, Clone, Copy, PartialEq, Eq, Structural)]
pub enum TerminalResolvedPathComponent {
    FnDef(FnDefId),
    CtorPat(CtorPat),
    CtorTerm(CtorTerm),
    /// A call of `subject` with the given arguments.
    FnCall { subject: TermId, args: ArgsId, implicit: bool },
    Var(SymbolId),
}

/// A resolved path.
#[derive(Debug, Clone, Copy, PartialEq, Eq, Structural)]
pub enum ResolvedAstPathComponent {
    NonTerminal(NonTerminalResolvedPathComponent),
    Terminal(TerminalResolvedPathComponent),
}

/// The resolved path can stand in a pattern position without failing: the
/// nodes it names are in the store, and a constructor call has no
/// constructor arguments.
pub open spec fn pat_path_ok(t: Seq<NodeData>, path: ResolvedAstPathComponent) -> bool {
    match path {
        ResolvedAstPathComponent::Terminal(TerminalResolvedPathComponent::CtorPat(c)) => has_kind(
            t,
            c.data_args.0,
            NodeKind::Args,
        ) && has_kind(t, c.ctor_pat_args.0, NodeKind::PatArgs),
        ResolvedAstPathComponent::Terminal(TerminalResolvedPathComponent::CtorTerm(c)) => has_kind(
            t,
            c.data_args.0,
            NodeKind::Args,
        ) && has_kind(t, c.ctor_args.0, NodeKind::Args) && args_at(t, c.ctor_args).len() == 0,
        _ => true,
    }
}

/// The error that a resolved path makes in a pattern position at
/// `location`, if it makes one: a data type, a module or a function cannot
/// stand there.
pub open spec fn pat_path_error(path: ResolvedAstPathComponent, location: SourceLocation) -> Option<SemanticError> {
    match path {
        ResolvedAstPathComponent::NonTerminal(NonTerminalResolvedPathComponent::Data(_, _)) => Some(
            SemanticError::CannotUseDataTypeInPatternPosition { location },
        ),
        ResolvedAstPathComponent::NonTerminal(NonTerminalResolvedPathComponent::Mod(_)) => Some(
            SemanticError::CannotUseModuleInPatternPosition { location },
        ),
        ResolvedAstPathComponent::Terminal(TerminalResolvedPathComponent::FnDef(_))
        | ResolvedAstPathComponent::Terminal(TerminalResolvedPathComponent::FnCall { .. }) => Some(
            SemanticError::CannotUseFunctionInPatternPosition { location },
        ),
        _ => None,
    }
}

/// Make a pattern from a resolved path, at `location` in the source. A
/// constructor pattern is kept; a variable becomes an immutable binding; a
/// constructor call without constructor arguments becomes a constructor
/// pattern with no fields; a data type, a module or a function is an
/// error. Only the new pattern, and for a constructor call its empty list
/// of fields before it, are added to the store.
pub fn make_pat_from_resolved_ast_path(tir: &mut Tir, path: &ResolvedAstPathComponent, location: SourceLocation) -> (r: Result<PatId, SemanticError>)
    requires
        old(tir).inv(),
        pat_path_ok(old(tir).nodes@, *path),
    ensures
        final(tir).inv(),
        final(tir).symbols == old(tir).symbols,
        match pat_path_error(*path, location) {
            Some(e) => r == Err::<PatId, SemanticError>(e) && final(tir).nodes@ == old(tir).nodes@,
            None => match *path {
                ResolvedAstPathComponent::Terminal(TerminalResolvedPathComponent::CtorPat(c)) => {
                    &&& r == Ok::<PatId, SemanticError>(PatId(old(tir).nodes@.len() as usize))
                    &&& final(tir).nodes@ == old(tir).nodes@.push(
                        NodeData::Pat(
                            Pat::Ctor {
                                ctor: c.ctor,
                                data_args: c.data_args,
                                ctor_pat_args: c.ctor_pat_args,
                                ctor_pat_args_spread: c.ctor_pat_args_spread,
                            },
                        ),
                    )
                },
                ResolvedAstPathComponent::Terminal(TerminalResolvedPathComponent::Var(v)) => {
                    &&& r == Ok::<PatId, SemanticError>(PatId(old(tir).nodes@.len() as usize))
                    &&& final(tir).nodes@ == old(tir).nodes@.push(
                        NodeData::Pat(Pat::Binding { name: v, is_mutable: false }),
                    )
                },
                ResolvedAstPathComponent::Terminal(TerminalResolvedPathComponent::CtorTerm(c)) => {
                    let fields = PatArgsId(old(tir).nodes@.len() as usize);
                    &&& r == Ok::<PatId, SemanticError>(PatId((old(tir).nodes@.len() + 1) as usize))
                    &&& final(tir).nodes@.len() == old(tir).nodes@.len() + 2
                    &&& final(tir).nodes@.take(old(tir).nodes@.len() as int) == old(tir).nodes@
                    &&& has_kind(final(tir).nodes@, fields.0, NodeKind::PatArgs)
                    &&& crate::tir::params::pat_args_at(final(tir).nodes@, fields).len() == 0
                    &&& final(tir).nodes@.last() == NodeData::Pat(
                        Pat::Ctor { ctor: c.ctor, data_args: c.data_args, ctor_pat_args: fields, ctor_pat_args_spread: None },
                    )
                },
                _ => false,
            },
        },
{
    match path {
        ResolvedAstPathComponent::NonTerminal(NonTerminalResolvedPathComponent::Data(_, _)) => {
            Err(SemanticError::CannotUseDataTypeInPatternPosition { location })
        },
        ResolvedAstPathComponent::NonTerminal(NonTerminalResolvedPathComponent::Mod(_)) => {
            Err(SemanticError::CannotUseModuleInPatternPosition { location })
        },
        ResolvedAstPathComponent::Terminal(TerminalResolvedPathComponent::CtorPat(c)) => {
            let p = Pat::Ctor {
                ctor: c.ctor,
                data_args: c.data_args,
                ctor_pat_args: c.ctor_pat_args,
                ctor_pat_args_spread: c.ctor_pat_args_spread,
            };
            Ok(PatId(tir.push_node(NodeData::Pat(p))))
        },
        ResolvedAstPathComponent::Terminal(TerminalResolvedPathComponent::Var(v)) => {
            Ok(PatId(tir.push_node(NodeData::Pat(Pat::Binding { name: *v, is_mutable: false }))))
        },
        ResolvedAstPathComponent::Terminal(TerminalResolvedPathComponent::CtorTerm(c)) => {
            let ghost t0 = tir.nodes@;
            let fields = tir.push_pat_args(Vec::new());
            let ghost t1 = tir.nodes@;
            let p = Pat::Ctor { ctor: c.ctor, data_args: c.data_args, ctor_pat_args: fields, ctor_pat_args_spread: None };
            let r = tir.push_node(NodeData::Pat(p));
            proof {
                assert(tir.nodes@.take(t0.len() as int) =~= t0);
                assert(tir.nodes@[fields.0 as int] == t1[fields.0 as int]);
            }
            Ok(PatId(r))
        },
        ResolvedAstPathComponent::Terminal(TerminalResolvedPathComponent::FnDef(_))
        | ResolvedAstPathComponent::Terminal(TerminalResolvedPathComponent::FnCall { .. }) => {
            Err(SemanticError::CannotUseFunctionInPatternPosition { location })
        },
    }
}

} // verus!

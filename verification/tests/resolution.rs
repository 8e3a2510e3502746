use hash_compiler::reporting::{SourceId, SourceLocation, Span};
use hash_compiler::resolution::{
    make_pat_from_resolved_ast_path, CtorPat, CtorTerm, NonTerminalResolvedPathComponent, ResolvedAstPathComponent,
    TerminalResolvedPathComponent,
};
use hash_compiler::semantic_error::SemanticError;
use hash_compiler::semantics::{
    declare_without_value, AppliedDirectives, DeclarationError, DeclaredPat, Mutability, ValuelessDeclaration, Visibility,
};
use hash_compiler::tir::context::ModDefId;
use hash_compiler::tir::store::{CtorDefId, DataDefId, FnDefId, NodeData, Pat, PatId, Term, Tir};

fn loc() -> SourceLocation {
    SourceLocation { span: Span { start: 3, end: 7 }, id: SourceId(1) }
}

#[test]
fn variables_become_immutable_bindings() {
    let mut tir = Tir::new();
    let v = tir.fresh_symbol();
    let path = ResolvedAstPathComponent::Terminal(TerminalResolvedPathComponent::Var(v));
    let p = make_pat_from_resolved_ast_path(&mut tir, &path, loc()).ok().unwrap();
    assert_eq!(tir.nodes[p.0], NodeData::Pat(Pat::Binding { name: v, is_mutable: false }));
}

#[test]
fn constructor_calls_without_arguments_become_constructor_patterns() {
    let mut tir = Tir::new();
    let data_args = tir.push_args(vec![]);
    let ctor_args = tir.push_args(vec![]);
    let c = CtorTerm { ctor: CtorDefId(0, 1), data_args, ctor_args };
    let path = ResolvedAstPathComponent::Terminal(TerminalResolvedPathComponent::CtorTerm(c));
    let p = make_pat_from_resolved_ast_path(&mut tir, &path, loc()).ok().unwrap();
    match tir.nodes[p.0] {
        NodeData::Pat(Pat::Ctor { ctor, data_args: d, ctor_pat_args, ctor_pat_args_spread }) => {
            assert_eq!(ctor, CtorDefId(0, 1));
            assert_eq!(d, data_args);
            assert!(ctor_pat_args_spread.is_none());
            assert_eq!(tir.nodes[ctor_pat_args.0], NodeData::PatArgs(vec![]));
        }
        _ => panic!("expected a constructor pattern"),
    }
    let fields = tir.push_pat_args(vec![]);
    let cp = CtorPat { ctor: CtorDefId(2, 0), data_args, ctor_pat_args: fields, ctor_pat_args_spread: None };
    let path = ResolvedAstPathComponent::Terminal(TerminalResolvedPathComponent::CtorPat(cp));
    let p = make_pat_from_resolved_ast_path(&mut tir, &path, loc()).ok().unwrap();
    assert!(matches!(tir.nodes[p.0], NodeData::Pat(Pat::Ctor { ctor: CtorDefId(2, 0), .. })));
}

#[test]
fn types_modules_and_functions_cannot_be_patterns() {
    let mut tir = Tir::new();
    let args = tir.push_args(vec![]);
    let before = tir.nodes.len();
    let data = ResolvedAstPathComponent::NonTerminal(NonTerminalResolvedPathComponent::Data(DataDefId(0), args));
    assert!(matches!(
        make_pat_from_resolved_ast_path(&mut tir, &data, loc()),
        Err(SemanticError::CannotUseDataTypeInPatternPosition { location }) if location == loc()
    ));
    let module = ResolvedAstPathComponent::NonTerminal(NonTerminalResolvedPathComponent::Mod(ModDefId(0)));
    assert!(matches!(
        make_pat_from_resolved_ast_path(&mut tir, &module, loc()),
        Err(SemanticError::CannotUseModuleInPatternPosition { .. })
    ));
    let u = tir.new_term(Term::Universe);
    let call = ResolvedAstPathComponent::Terminal(TerminalResolvedPathComponent::FnCall { subject: u, args, implicit: false });
    assert!(matches!(
        make_pat_from_resolved_ast_path(&mut tir, &call, loc()),
        Err(SemanticError::CannotUseFunctionInPatternPosition { .. })
    ));
    let f = ResolvedAstPathComponent::Terminal(TerminalResolvedPathComponent::FnDef(FnDefId(0)));
    assert!(make_pat_from_resolved_ast_path(&mut tir, &f, loc()).is_err());
    assert_eq!(tir.nodes.len(), before + 1);
}

#[test]
fn valueless_declarations_need_a_trait() {
    let mut tir = Tir::new();
    let name = tir.fresh_symbol();
    let ty = tir.new_term(Term::Universe);
    let binding = DeclaredPat::Binding { name, mutability: Mutability::Mutable, visibility: Visibility::Public };
    let none = AppliedDirectives::empty();
    let site = SourceLocation { span: Span { start: 0, end: 1 }, id: SourceId(1) };
    assert_eq!(
        declare_without_value(PatId(9), binding, ty, false, none, loc(), site),
        Err(DeclarationError::UninitialisedMemberNotAllowed { member: loc() })
    );
    assert_eq!(
        declare_without_value(PatId(9), binding, ty, true, none, loc(), site),
        Ok(ValuelessDeclaration::UninitialisedConstant {
            name,
            visibility: Visibility::Public,
            ty,
            error: Some(DeclarationError::MemberMustBeImmutable { name, site }),
        })
    );
    assert_eq!(
        declare_without_value(PatId(9), DeclaredPat::Other, ty, true, none, loc(), site),
        Err(DeclarationError::CannotPatMatchWithoutAssignment { pat: PatId(9) })
    );
    let mut intrinsics = AppliedDirectives::empty();
    intrinsics.insert(AppliedDirectives::INTRINSICS);
    assert_eq!(
        declare_without_value(PatId(9), DeclaredPat::Other, ty, false, intrinsics, loc(), site),
        Ok(ValuelessDeclaration::RuntimeValue)
    );
}

use hash_compiler::tir::context::{Binding, BindingKind, Context, EqualityJudgement, ScopeKind};
use hash_compiler::tir::params::ParamOrigin;
use hash_compiler::tir::store::{DataDefId, FnDefId, StackId, SymbolId, TermId};

fn eq(l: usize, r: usize) -> BindingKind {
    BindingKind::Equality(EqualityJudgement { lhs: TermId(l), rhs: TermId(r) })
}

fn bind(name: usize, kind: BindingKind) -> Binding {
    Binding { name: SymbolId(name), kind }
}

#[test]
fn lookup_finds_a_binding_just_added() {
    let mut ctx = Context::new();
    ctx.add_scope(ScopeKind::Fn(FnDefId(0)));
    ctx.add_binding(bind(4, eq(1, 2)));
    assert_eq!(ctx.try_get_binding(SymbolId(4)), Some(bind(4, eq(1, 2))));
    assert_eq!(ctx.try_get_binding(SymbolId(5)), None);
    assert_eq!(ctx.get_binding(SymbolId(4)), bind(4, eq(1, 2)));
}

#[test]
fn inner_scopes_shadow_outer_ones() {
    let mut ctx = Context::new();
    ctx.add_scope(ScopeKind::Stack(StackId(0)));
    ctx.add_binding(bind(1, eq(1, 1)));
    ctx.add_scope(ScopeKind::Fn(FnDefId(3)));
    ctx.add_binding(bind(1, eq(2, 2)));
    assert_eq!(ctx.try_get_binding(SymbolId(1)), Some(bind(1, eq(2, 2))));
    let removed = ctx.remove_scope().unwrap();
    assert_eq!(removed.kind, ScopeKind::Fn(FnDefId(3)));
    assert_eq!(ctx.try_get_binding(SymbolId(1)), Some(bind(1, eq(1, 1))));
    ctx.remove_scope();
    assert!(ctx.remove_scope().is_none());
}

#[test]
fn rebinding_keeps_the_order_of_the_scope() {
    let mut ctx = Context::new();
    ctx.add_scope(ScopeKind::Stack(StackId(0)));
    ctx.add_binding(bind(7, eq(0, 0)));
    ctx.add_binding(bind(3, eq(1, 1)));
    ctx.add_binding(bind(7, eq(2, 2)));
    assert_eq!(ctx.count_bindings_of_scope(0), 2);
    assert_eq!(ctx.bindings_of_scope(0), vec![bind(7, eq(2, 2)), bind(3, eq(1, 1))]);
    assert_eq!(ctx.get_owned_bindings_of_scope(0), vec![SymbolId(7), SymbolId(3)]);
}

#[test]
fn modifying_changes_the_innermost_binding() {
    let mut ctx = Context::new();
    ctx.add_scope(ScopeKind::Stack(StackId(0)));
    ctx.add_binding(bind(1, eq(1, 1)));
    ctx.add_scope(ScopeKind::Data(DataDefId(0)));
    ctx.add_binding(bind(1, eq(2, 2)));
    ctx.modify_binding(bind(1, eq(9, 9)));
    assert_eq!(ctx.try_get_binding(SymbolId(1)), Some(bind(1, eq(9, 9))));
    ctx.remove_scope();
    assert_eq!(ctx.try_get_binding(SymbolId(1)), Some(bind(1, eq(1, 1))));
}

#[test]
fn bindings_go_to_the_scope_at_the_given_index() {
    let mut ctx = Context::new();
    ctx.add_scope(ScopeKind::Stack(StackId(5)));
    ctx.add_scope(ScopeKind::Fn(FnDefId(0)));
    ctx.add_binding_to_scope(bind(2, eq(0, 1)), 1);
    assert_eq!(ctx.count_bindings_of_scope(0), 0);
    assert_eq!(ctx.count_bindings_of_scope(1), 1);
    ctx.add_binding_to_scope(bind(3, eq(0, 1)), 0);
    assert_eq!(ctx.count_bindings_of_scope(0), 1);
    assert_eq!(ctx.count_bindings_of_scope(1), 1);
    assert_eq!(ctx.get_closest_stack_scope_ref().kind, ScopeKind::Stack(StackId(5)));
    assert_eq!(ctx.get_current_scope_kind(), ScopeKind::Fn(FnDefId(0)));
    assert_eq!(ctx.get_current_scope_index(), 1);
    assert_eq!(ctx.get_scope_indices(), 0..2);
    ctx.clear_all();
    assert_eq!(ctx.get_scope_indices(), 0..0);
}

#[test]
fn constant_bindings_and_scopes() {
    assert!(ScopeKind::Data(DataDefId(0)).is_constant());
    assert!(!ScopeKind::Stack(StackId(0)).is_constant());
    assert!(!eq(0, 0).is_constant());
    assert!(ParamOrigin::Data(DataDefId(1)).is_constant());
    assert!(!ParamOrigin::Fn(FnDefId(1)).is_constant());
    assert_eq!(ScopeKind::from(ParamOrigin::Fn(FnDefId(2))), ScopeKind::Fn(FnDefId(2)));
}

#[test]
fn entering_a_scope_runs_in_it_and_leaves_it() {
    let mut ctx = Context::new();
    ctx.add_scope(ScopeKind::Stack(StackId(0)));
    ctx.add_binding(bind(1, eq(1, 1)));
    let seen = ctx.enter_scope(ScopeKind::Fn(FnDefId(2)), |mut inner: Context| {
        inner.add_binding(bind(1, eq(7, 7)));
        let seen = inner.try_get_binding(SymbolId(1));
        let depth = inner.get_current_scope_index();
        (inner, (seen, depth))
    });
    assert_eq!(seen, (Some(bind(1, eq(7, 7))), 1));
    assert_eq!(ctx.get_current_scope_index(), 0);
    assert_eq!(ctx.try_get_binding(SymbolId(1)), Some(bind(1, eq(1, 1))));
}

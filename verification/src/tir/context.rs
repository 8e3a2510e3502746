//! The typechecking context: a stack of scopes, each holding the bindings
//! of its names in the order they were added.

use std::collections::hash_map::RandomState;

use indexmap::IndexMap;
use vstd::prelude::*;

use crate::tir::params::{ParamId, ParamOrigin, TupleTy};
use crate::tir::store::{
    ArgsId, CtorDefId, DataDefId, FnDefId, FnTy, StackId, SymbolId, TermId, TyId,
};

verus! {

/// The ordered map of the `indexmap` crate.
#[verifier::external_type_specification]
#[verifier::external_body]
#[verifier::reject_recursive_types(K)]
#[verifier::reject_recursive_types(V)]
#[verifier::reject_recursive_types(S)]
pub struct ExIndexMap<K, V, S>(IndexMap<K, V, S>);

/// The entries of a scope's map of bindings, in their order: each symbol,
/// by its index, with the kind of its binding.
pub uninterp spec fn binding_entries(m: IndexMap<usize, BindingKind, RandomState>) -> Seq<(usize, BindingKind)>;

/// The position of the first entry for `k`, if any.
pub open spec fn entry_position(es: Seq<(usize, BindingKind)>, k: usize) -> Option<int>
    decreases es.len(),
{
    if es.len() == 0 {
        None
    } else {
        match entry_position(es.drop_last(), k) {
            Some(i) => Some(i),
            None => if es.last().0 == k {
                Some(es.len() - 1)
            } else {
                None
            },
        }
    }
}

/// The kind bound to `k` in the entries, if any.
pub open spec fn entry_lookup(es: Seq<(usize, BindingKind)>, k: usize) -> Option<BindingKind> {
    match entry_position(es, k) {
        Some(i) => Some(es[i].1),
        None => None,
    }
}

/// The entries after binding `k` to `v`: an existing entry for `k` keeps
/// its place and takes the new kind; otherwise the entry goes last.
pub open spec fn entry_insert(es: Seq<(usize, BindingKind)>, k: usize, v: BindingKind) -> Seq<(usize, BindingKind)> {
    match entry_position(es, k) {
        Some(i) => es.update(i, (k, v)),
        None => es.push((k, v)),
    }
}

/// `IndexMap::new`: an empty map.
#[verifier::external_body]
fn bindings_new() -> (r: IndexMap<usize, BindingKind, RandomState>)
    ensures
        binding_entries(r) == Seq::<(usize, BindingKind)>::empty(),
{
    IndexMap::new()
}

/// `IndexMap::insert`: an existing entry for the key keeps its place and
/// takes the new value, and the old value is returned; otherwise the entry
/// is added last and nothing is returned.
#[verifier::external_body]
fn bindings_insert(m: &mut IndexMap<usize, BindingKind, RandomState>, k: usize, v: BindingKind) -> (r: Option<BindingKind>)
    ensures
        binding_entries(*final(m)) == entry_insert(binding_entries(*old(m)), k, v),
        r == entry_lookup(binding_entries(*old(m)), k),
{
    m.insert(k, v)
}

/// `IndexMap::get`: the value of the entry for the key, if any.
#[verifier::external_body]
fn bindings_get(m: &IndexMap<usize, BindingKind, RandomState>, k: usize) -> (r: Option<BindingKind>)
    ensures
        r == entry_lookup(binding_entries(*m), k),
{
    m.get(&k).copied()
}

/// `IndexMap::len`: the number of entries.
#[verifier::external_body]
fn bindings_len(m: &IndexMap<usize, BindingKind, RandomState>) -> (r: usize)
    ensures
        r == binding_entries(*m).len(),
{
    m.len()
}

/// `IndexMap::get_index`: the entry at a position, if there is one.
#[verifier::external_body]
fn bindings_get_index(m: &IndexMap<usize, BindingKind, RandomState>, i: usize) -> (r: Option<(usize, BindingKind)>)
    ensures
        r == (if i < binding_entries(*m).len() {
            Some(binding_entries(*m)[i as int])
        } else {
            None
        }),
{
    m.get_index(i).map(|(k, v)| (*k, *v))
}

/// A module definition.
#[derive(Debug, Clone, Copy, PartialEq, Eq, Structural)]
pub struct ModDefId(pub u32);

/// A member of a module definition.
#[derive(Debug, Clone, Copy, PartialEq, Eq, Structural)]
pub struct ModMemberId(pub u32, pub usize);

/// A member of a stack.
#[derive(Debug, Clone, Copy, PartialEq, Eq, Structural)]
pub struct StackMemberId(pub StackId, pub usize);

/// An argument, by its list and position.
#[derive(Debug, Clone, Copy, PartialEq, Eq, Structural)]
pub struct ArgId(pub ArgsId, pub usize);

/// An established equality between terms, that is in scope.
#[derive(Debug, Clone, Copy, PartialEq, Eq, Structural)]
pub struct EqualityJudgement {
    pub lhs: TermId,
    pub rhs: TermId,
}

/// The kind of a binding.
#[derive(Debug, Clone, Copy, PartialEq, Eq, Structural)]
pub enum BindingKind {
    /// A binding that is a module member, such as `Q` in
    /// `mod { Q := struct(); Q }`.
    ModMember(ModDefId, ModMemberId),
    /// A binding that is a constructor definition, such as `None`.
    Ctor(DataDefId, CtorDefId),
    /// A parameter variable, such as `x` in `(x: i32) => x`.
    Param(ParamOrigin, ParamId),
    /// A stack member, such as `a` in `{ a := 3; a }`, with its type and
    /// its current value, if any.
    StackMember(StackMemberId, TyId, Option<TermId>),
    /// A parameter substitution (an argument), such as `a=3` in
    /// `((a: i32) => a + 3)(3)`.
    Arg(ParamId, ArgId),
    /// An equality judgement, which cannot be referenced by name.
    Equality(EqualityJudgement),
}

impl BindingKind {
    /// A constant binding is one that cannot depend on non-constant
    /// bindings.
    pub fn is_constant(&self) -> (r: bool)
        ensures
            r == match *self {
                BindingKind::ModMember(_, _) | BindingKind::Ctor(_, _) => true,
                BindingKind::Param(origin, _) => origin is Ctor || origin is Data,
                _ => false,
            },
    {
        match self {
            BindingKind::ModMember(_, _) | BindingKind::Ctor(_, _) => true,
            BindingKind::Param(origin, _) => origin.is_constant(),
            BindingKind::StackMember(_, _, _) | BindingKind::Arg(_, _) | BindingKind::Equality(_) => false,
        }
    }
}

/// A binding: `name := kind` in the current context.
#[derive(Debug, Clone, Copy, PartialEq, Eq, Structural)]
pub struct Binding {
    pub name: SymbolId,
    pub kind: BindingKind,
}

/// All the different kinds of scope there are, and their associated data.
#[derive(Debug, Clone, Copy, PartialEq, Eq, Structural)]
pub enum ScopeKind {
    Mod(ModDefId),
    Stack(StackId),
    Fn(FnDefId),
    Data(DataDefId),
    Ctor(CtorDefId),
    FnTy(FnTy),
    TupleTy(TupleTy),
}

impl ScopeKind {
    /// A constant scope is one that cannot depend on non-constant bindings.
    pub fn is_constant(&self) -> (r: bool)
        ensures
            r == (*self is Mod || *self is Data || *self is Ctor),
    {
        match self {
            ScopeKind::Mod(_) | ScopeKind::Data(_) | ScopeKind::Ctor(_) => true,
            ScopeKind::Stack(_) | ScopeKind::Fn(_) | ScopeKind::FnTy(_) | ScopeKind::TupleTy(_) => false,
        }
    }
}

/// The scope of the parameters of the given origin.
pub open spec fn scope_of_param_origin(value: ParamOrigin) -> ScopeKind {
    match value {
        ParamOrigin::Fn(d) => ScopeKind::Fn(d),
        ParamOrigin::FnTy(t) => ScopeKind::FnTy(t),
        ParamOrigin::TupleTy(t) => ScopeKind::TupleTy(t),
        ParamOrigin::Ctor(c) => ScopeKind::Ctor(c),
        ParamOrigin::Data(d) => ScopeKind::Data(d),
    }
}

impl From<ParamOrigin> for ScopeKind {
    fn from(value: ParamOrigin) -> (r: Self) {
        match value {
            ParamOrigin::Fn(d) => ScopeKind::Fn(d),
            ParamOrigin::FnTy(t) => ScopeKind::FnTy(t),
            ParamOrigin::TupleTy(t) => ScopeKind::TupleTy(t),
            ParamOrigin::Ctor(c) => ScopeKind::Ctor(c),
            ParamOrigin::Data(d) => ScopeKind::Data(d),
        }
    }
}

impl vstd::std_specs::convert::FromSpecImpl<ParamOrigin> for ScopeKind {
    open spec fn obeys_from_spec() -> bool {
        true
    }

    open spec fn from_spec(v: ParamOrigin) -> Self {
        scope_of_param_origin(v)
    }
}

/// A scope of the context: its kind and its bindings.
pub struct Scope {
    pub kind: ScopeKind,
    pub bindings: IndexMap<usize, BindingKind, RandomState>,
}

impl Scope {
    /// The bindings of the scope, in order.
    pub open spec fn entries(&self) -> Seq<(usize, BindingKind)> {
        binding_entries(self.bindings)
    }

    /// Create a new scope with the given kind and no bindings.
    pub fn with_empty_members(kind: ScopeKind) -> (r: Self)
        ensures
            r.kind == kind,
            r.entries() == Seq::<(usize, BindingKind)>::empty(),
    {
        Scope { kind, bindings: bindings_new() }
    }

    /// Add a binding to the scope.
    pub fn add_binding(&mut self, binding: Binding)
        ensures
            final(self).kind == old(self).kind,
            final(self).entries() == entry_insert(old(self).entries(), binding.name.0, binding.kind),
    {
        bindings_insert(&mut self.bindings, binding.name.0, binding.kind);
    }

    /// The binding of the given symbol in this scope, if any.
    pub fn get_binding(&self, symbol: SymbolId) -> (r: Option<Binding>)
        ensures
            r == match entry_lookup(self.entries(), symbol.0) {
                Some(k) => Some(Binding { name: symbol, kind: k }),
                None => None,
            },
    {
        match bindings_get(&self.bindings, symbol.0) {
            Some(kind) => Some(Binding { name: symbol, kind }),
            None => None,
        }
    }

    /// The kind of the binding of the given symbol in this scope, if any.
    pub fn get_binding_kind(&self, symbol: SymbolId) -> (r: Option<BindingKind>)
        ensures
            r == entry_lookup(self.entries(), symbol.0),
    {
        bindings_get(&self.bindings, symbol.0)
    }

    /// Set the kind of an existing binding of the given symbol to `f` of
    /// its current kind. Returns whether the binding was found.
    pub fn set_existing_binding_kind<F: Fn(BindingKind) -> BindingKind>(&mut self, symbol: SymbolId, f: &F) -> (r: bool)
        requires
            forall|k: BindingKind| f.requires((k,)),
        ensures
            final(self).kind == old(self).kind,
            r == (entry_lookup(old(self).entries(), symbol.0) is Some),
            match entry_lookup(old(self).entries(), symbol.0) {
                Some(k) => exists|k2: BindingKind| #[trigger] f.ensures((k,), k2)
                    && final(self).entries() == entry_insert(old(self).entries(), symbol.0, k2),
                None => final(self).entries() == old(self).entries(),
            },
    {
        match self.get_binding_kind(symbol) {
            Some(old_kind) => {
                let new_kind = f(old_kind);
                bindings_insert(&mut self.bindings, symbol.0, new_kind);
                true
            },
            None => false,
        }
    }
}

/// The scopes of a context, innermost last: each with its kind and its
/// bindings.
pub type ContextView = Seq<(ScopeKind, Seq<(usize, BindingKind)>)>;

/// The kind bound to `k` by the innermost scope that binds it, if any.
pub open spec fn ctx_lookup(v: ContextView, k: usize) -> Option<BindingKind>
    decreases v.len(),
{
    if v.len() == 0 {
        None
    } else {
        match entry_lookup(v.last().1, k) {
            Some(b) => Some(b),
            None => ctx_lookup(v.drop_last(), k),
        }
    }
}

/// The position of the innermost scope that binds `k`, if any.
pub open spec fn innermost_binding_scope(v: ContextView, k: usize) -> Option<int>
    decreases v.len(),
{
    if v.len() == 0 {
        None
    } else if entry_lookup(v.last().1, k) is Some {
        Some(v.len() - 1)
    } else {
        innermost_binding_scope(v.drop_last(), k)
    }
}

/// The position of the innermost stack scope, if any.
pub open spec fn closest_stack_scope(v: ContextView) -> Option<int>
    decreases v.len(),
{
    if v.len() == 0 {
        None
    } else if v.last().0 is Stack {
        Some(v.len() - 1)
    } else {
        closest_stack_scope(v.drop_last())
    }
}

/// The context after binding `k` to `b` in the scope at position `i`.
pub open spec fn ctx_bind_in(v: ContextView, i: int, k: usize, b: BindingKind) -> ContextView {
    v.update(i, (v[i].0, entry_insert(v[i].1, k, b)))
}

/// The scope and entry positions of the innermost binding of `k`.
pub proof fn lemma_innermost_binding_scope(v: ContextView, k: usize)
    ensures
        innermost_binding_scope(v, k) matches Some(i) ==> 0 <= i < v.len() && entry_lookup(v[i].1, k) is Some
            && ctx_lookup(v, k) == entry_lookup(v[i].1, k)
            && forall|j: int| i < j < v.len() ==> entry_lookup(#[trigger] v[j].1, k) is None,
        innermost_binding_scope(v, k) is None <==> ctx_lookup(v, k) is None,
        innermost_binding_scope(v, k) is None ==> forall|j: int| 0 <= j < v.len() ==> entry_lookup(#[trigger] v[j].1, k) is None,
    decreases v.len(),
{
    if v.len() > 0 {
        let init = v.drop_last();
        lemma_innermost_binding_scope(init, k);
        if entry_lookup(v.last().1, k) is None {
            match innermost_binding_scope(init, k) {
                Some(i) => {
                    assert(init[i] == v[i]);
                    assert forall|j: int| i < j < v.len() implies entry_lookup(#[trigger] v[j].1, k) is None by {
                        if j < v.len() - 1 {
                            assert(init[j] == v[j]);
                        }
                    }
                },
                None => {
                    assert forall|j: int| 0 <= j < v.len() implies entry_lookup(#[trigger] v[j].1, k) is None by {
                        if j < v.len() - 1 {
                            assert(init[j] == v[j]);
                        }
                    }
                },
            }
        }
    }
}

/// The position of an entry for `k` holds `k`, and no earlier entry does.
pub proof fn lemma_entry_position(es: Seq<(usize, BindingKind)>, k: usize)
    ensures
        entry_position(es, k) matches Some(i) ==> 0 <= i < es.len() && es[i].0 == k
            && forall|j: int| 0 <= j < i ==> es[j].0 != k,
        entry_position(es, k) is None ==> forall|j: int| 0 <= j < es.len() ==> es[j].0 != k,
    decreases es.len(),
{
    if es.len() > 0 {
        let init = es.drop_last();
        lemma_entry_position(init, k);
        match entry_position(init, k) {
            Some(i) => {
                assert(init[i] == es[i]);
                assert forall|j: int| 0 <= j < i implies es[j].0 != k by {
                    assert(init[j] == es[j]);
                }
            },
            None => {
                assert forall|j: int| 0 <= j < es.len() - 1 implies es[j].0 != k by {
                    assert(init[j] == es[j]);
                }
            },
        }
    }
}

/// Binding `k` to `v` makes the entries map `k` to `v`, and leaves the
/// other keys as they were.
pub proof fn lemma_entry_insert(es: Seq<(usize, BindingKind)>, k: usize, v: BindingKind, x: usize)
    ensures
        entry_lookup(entry_insert(es, k, v), k) == Some(v),
        x != k ==> entry_lookup(entry_insert(es, k, v), x) == entry_lookup(es, x),
{
    lemma_entry_position(es, k);
    lemma_entry_position(es, x);
    let es2 = entry_insert(es, k, v);
    lemma_entry_position(es2, k);
    lemma_entry_position(es2, x);
    match entry_position(es, k) {
        Some(i) => {
            assert(es2[i].0 == k);
            if let Some(j) = entry_position(es2, k) {
                if j < i {
                    assert(es2[j] == es[j]);
                }
                if j > i {
                    assert(es2[i].0 == k);
                }
            }
            if x != k {
                match entry_position(es, x) {
                    Some(j) => {
                        assert(es2[j] == es[j]);
                        if let Some(j2) = entry_position(es2, x) {
                            if j2 < j {
                                assert(es2[j2].0 == x);
                                if j2 != i {
                                    assert(es2[j2] == es[j2]);
                                }
                            }
                        }
                    },
                    None => {
                        if let Some(j2) = entry_position(es2, x) {
                            if j2 != i {
                                assert(es2[j2] == es[j2]);
                            }
                        }
                    },
                }
            }
        },
        None => {
            assert(es2[es.len() as int] == (k, v));
            if let Some(j) = entry_position(es2, k) {
                if j < es.len() {
                    assert(es2[j] == es[j]);
                }
            }
            if x != k {
                match entry_position(es, x) {
                    Some(j) => {
                        assert(es2[j] == es[j]);
                        if let Some(j2) = entry_position(es2, x) {
                            if j2 < es.len() {
                                assert(es2[j2] == es[j2]);
                            }
                        }
                    },
                    None => {
                        if let Some(j2) = entry_position(es2, x) {
                            if j2 < es.len() {
                                assert(es2[j2] == es[j2]);
                            }
                        }
                    },
                }
            }
        },
    }
}

/// The context: a stack of scopes, innermost last.
pub struct Context {
    pub scopes: Vec<Scope>,
}

impl Context {
    /// The scopes, with their kinds and bindings.
    pub open spec fn view(&self) -> ContextView {
        self.scopes@.map_values(|s: Scope| (s.kind, s.entries()))
    }

    /// A context with no scopes.
    pub fn new() -> (r: Self)
        ensures
            r.view() == Seq::<(ScopeKind, Seq<(usize, BindingKind)>)>::empty(),
    {
        Context { scopes: Vec::new() }
    }

    /// Enter a new scope of the given kind, with no bindings.
    pub fn add_scope(&mut self, kind: ScopeKind)
        ensures
            final(self).view() == old(self).view().push((kind, Seq::<(usize, BindingKind)>::empty())),
    {
        self.scopes.push(Scope::with_empty_members(kind));
        assert(self.view() =~= old(self).view().push((kind, Seq::<(usize, BindingKind)>::empty())));
    }

    /// Enter a new scope of the given kind, run `f` in it, and exit the
    /// scope again: `f` is handed the context with the new scope and hands
    /// it back with what it computed; the innermost scope of what it hands
    /// back is then removed. `f` must hand back a context with a scope.
    pub fn enter_scope<T, F: FnOnce(Context) -> (Context, T)>(&mut self, kind: ScopeKind, f: F) -> (r: T)
        requires
            forall|c: Context|
                c.view() == old(self).view().push((kind, Seq::<(usize, BindingKind)>::empty())) ==> call_requires(
                    f,
                    (c,),
                ),
            forall|c: Context, out: (Context, T)| #[trigger] call_ensures(f, (c,), out) ==> out.0.view().len() > 0,
        ensures
            exists|c: Context, mid: Context|
                c.view() == old(self).view().push((kind, Seq::<(usize, BindingKind)>::empty())) && #[trigger] call_ensures(
                    f,
                    (c,),
                    (mid, r),
                ) && final(self).view() == mid.view().drop_last(),
    {
        let mut ctx = Context::new();
        std::mem::swap(&mut ctx, self);
        ctx.add_scope(kind);
        let ghost entered = ctx;
        let (mut inner, r) = f(ctx);
        let ghost mid = inner;
        inner.remove_scope();
        *self = inner;
        proof {
            assert(call_ensures(f, (entered,), (mid, r)));
        }
        r
    }

    /// Exit the innermost scope, returning it, or nothing when there are no
    /// scopes.
    pub fn remove_scope(&mut self) -> (r: Option<Scope>)
        ensures
            old(self).view().len() == 0 ==> r is None && final(self).view() == old(self).view(),
            old(self).view().len() > 0 ==> (r matches Some(s) && (s.kind, s.entries()) == old(self).view().last()
                && final(self).view() == old(self).view().drop_last()),
    {
        let r = self.scopes.pop();
        assert(self.view() =~= old(self).view().take(self.scopes@.len() as int));
        r
    }

    /// Add a binding to the innermost scope.
    pub fn add_binding(&mut self, binding: Binding)
        requires
            old(self).view().len() > 0,
        ensures
            final(self).view() == ctx_bind_in(old(self).view(), old(self).view().len() - 1, binding.name.0, binding.kind),
    {
        let i = self.scopes.len() - 1;
        self.bind_in_scope(i, binding);
    }

    /// Add a binding to the scope at position `i`.
    fn bind_in_scope(&mut self, i: usize, binding: Binding)
        requires
            i < old(self).view().len(),
        ensures
            final(self).view() == ctx_bind_in(old(self).view(), i as int, binding.name.0, binding.kind),
    {
        let mut scope = self.scopes.remove(i);
        scope.add_binding(binding);
        self.scopes.insert(i, scope);
        assert(self.view() =~= ctx_bind_in(old(self).view(), i as int, binding.name.0, binding.kind));
    }

    /// The position of the innermost stack scope, if any.
    fn closest_stack_scope_index(&self) -> (r: Option<usize>)
        ensures
            r matches Some(i) ==> closest_stack_scope(self.view()) == Some(i as int),
            r is None ==> closest_stack_scope(self.view()) is None,
    {
        let mut i: usize = self.scopes.len();
        assert(self.view().take(i as int) =~= self.view());
        while i > 0
            invariant
                i <= self.view().len(),
                closest_stack_scope(self.view()) == closest_stack_scope(self.view().take(i as int)),
            decreases i,
        {
            let ghost v = self.view().take(i as int);
            assert(v.drop_last() =~= self.view().take(i - 1));
            match self.scopes[i - 1].kind {
                ScopeKind::Stack(_) => {
                    return Some(i - 1);
                },
                _ => {},
            }
            i = i - 1;
        }
        None
    }

    /// Add a binding to the scope at the given position; no other scope
    /// changes.
    pub fn add_binding_to_scope(&mut self, binding: Binding, scope_index: usize)
        requires
            scope_index < old(self).view().len(),
        ensures
            final(self).view() == ctx_bind_in(old(self).view(), scope_index as int, binding.name.0, binding.kind),
    {
        self.bind_in_scope(scope_index, binding);
    }

    /// The binding of `name` in the innermost scope that binds it, if any.
    pub fn try_get_binding(&self, name: SymbolId) -> (r: Option<Binding>)
        ensures
            r == match ctx_lookup(self.view(), name.0) {
                Some(k) => Some(Binding { name, kind: k }),
                None => None,
            },
    {
        let mut i: usize = self.scopes.len();
        assert(self.view().take(i as int) =~= self.view());
        while i > 0
            invariant
                i <= self.view().len(),
                ctx_lookup(self.view(), name.0) == ctx_lookup(self.view().take(i as int), name.0),
            decreases i,
        {
            let ghost v = self.view().take(i as int);
            assert(v.drop_last() =~= self.view().take(i - 1));
            match self.scopes[i - 1].get_binding(name) {
                Some(b) => {
                    return Some(b);
                },
                None => {},
            }
            i = i - 1;
        }
        None
    }

    /// The binding of `name` in the innermost scope that binds it, which
    /// must exist.
    pub fn get_binding(&self, name: SymbolId) -> (r: Binding)
        requires
            ctx_lookup(self.view(), name.0) is Some,
        ensures
            r == (Binding { name, kind: ctx_lookup(self.view(), name.0)->0 }),
    {
        match self.try_get_binding(name) {
            Some(b) => b,
            None => {
                proof {
                    assert(false);
                }
                Binding { name, kind: BindingKind::Equality(EqualityJudgement { lhs: TermId(0), rhs: TermId(0) }) }
            },
        }
    }

    /// Set the binding of `name` in the innermost scope that binds it, which
    /// must exist, to `f` of its current kind.
    pub fn modify_binding_with<F: Fn(BindingKind) -> BindingKind>(&mut self, name: SymbolId, f: F)
        requires
            ctx_lookup(old(self).view(), name.0) is Some,
            forall|k: BindingKind| f.requires((k,)),
        ensures
            exists|k2: BindingKind|
                #[trigger] f.ensures((ctx_lookup(old(self).view(), name.0)->0,), k2) && final(self).view() == ctx_bind_in(
                    old(self).view(),
                    innermost_binding_scope(old(self).view(), name.0)->0,
                    name.0,
                    k2,
                ),
    {
        proof {
            lemma_innermost_binding_scope(self.view(), name.0);
        }
        let mut i: usize = self.scopes.len();
        while i > 0
            invariant
                i <= self.view().len(),
                self.view() == old(self).view(),
                forall|k: BindingKind| f.requires((k,)),
                (innermost_binding_scope(self.view(), name.0) matches Some(j) && j < i),
                forall|j: int| i <= j < self.view().len() ==> entry_lookup(#[trigger] self.view()[j].1, name.0) is None,
                ctx_lookup(self.view(), name.0) is Some,
            decreases i,
        {
            let found = match self.scopes[i - 1].get_binding_kind(name) {
                Some(_) => true,
                None => false,
            };
            proof {
                lemma_innermost_binding_scope(self.view(), name.0);
                assert(self.view()[i - 1].1 == self.scopes@[i - 1].entries());
                if !found {
                    if let Some(j) = innermost_binding_scope(self.view(), name.0) {
                        if j == i - 1 {
                            assert(false);
                        }
                    }
                }
            }
            if found {
                let ghost v = self.view();
                let mut scope = self.scopes.remove(i - 1);
                scope.set_existing_binding_kind(name, &f);
                self.scopes.insert(i - 1, scope);
                proof {
                    assert(innermost_binding_scope(v, name.0) == Some((i - 1) as int));
                    assert(ctx_lookup(v, name.0) == entry_lookup(v[i - 1].1, name.0));
                    let k2 = choose|k2: BindingKind| #[trigger] f.ensures((entry_lookup(v[i - 1].1, name.0)->0,), k2)
                        && self.scopes@[i - 1].entries() == entry_insert(v[i - 1].1, name.0, k2);
                    assert(self.view() =~= ctx_bind_in(v, (i - 1) as int, name.0, k2));
                }
                return;
            }
            i = i - 1;
        }
    }

    /// Set the binding of its name in the innermost scope that binds it,
    /// which must exist, to the given binding's kind.
    pub fn modify_binding(&mut self, binding: Binding)
        requires
            ctx_lookup(old(self).view(), binding.name.0) is Some,
        ensures
            final(self).view() == ctx_bind_in(
                old(self).view(),
                innermost_binding_scope(old(self).view(), binding.name.0)->0,
                binding.name.0,
                binding.kind,
            ),
    {
        let kind = binding.kind;
        self.modify_binding_with(binding.name, |_k: BindingKind| -> (r: BindingKind)
            ensures
                r == kind,
            { kind });
    }

    /// The innermost scope, which must exist.
    pub fn get_current_scope_ref(&self) -> (r: &Scope)
        requires
            self.view().len() > 0,
        ensures
            (r.kind, r.entries()) == self.view().last(),
    {
        &self.scopes[self.scopes.len() - 1]
    }

    /// The kind of the innermost scope, which must exist.
    pub fn get_current_scope_kind(&self) -> (r: ScopeKind)
        requires
            self.view().len() > 0,
        ensures
            r == self.view().last().0,
    {
        self.get_current_scope_ref().kind
    }

    /// The innermost stack scope, which must exist.
    pub fn get_closest_stack_scope_ref(&self) -> (r: &Scope)
        requires
            closest_stack_scope(self.view()) is Some,
        ensures
            (r.kind, r.entries()) == self.view()[closest_stack_scope(self.view())->0],
    {
        proof {
            lemma_closest_stack_scope(self.view());
        }
        match self.closest_stack_scope_index() {
            Some(i) => &self.scopes[i],
            None => {
                proof {
                    assert(false);
                }
                &self.scopes[0]
            },
        }
    }

    /// The scope at position `index`, which must exist.
    pub fn get_scope_ref_at_index(&self, index: usize) -> (r: &Scope)
        requires
            index < self.view().len(),
        ensures
            (r.kind, r.entries()) == self.view()[index as int],
    {
        &self.scopes[index]
    }

    /// The scope at position `index`, which must exist.
    pub fn get_scope(&self, index: usize) -> (r: &Scope)
        requires
            index < self.view().len(),
        ensures
            (r.kind, r.entries()) == self.view()[index as int],
    {
        &self.scopes[index]
    }

    /// The position of the innermost scope, which must exist.
    pub fn get_current_scope_index(&self) -> (r: usize)
        requires
            self.view().len() > 0,
        ensures
            r == self.view().len() - 1,
    {
        self.scopes.len() - 1
    }

    /// The positions of all the scopes, as a range.
    pub fn get_scope_indices(&self) -> (r: std::ops::Range<usize>)
        ensures
            r.start == 0,
            r.end == self.view().len(),
    {
        0..self.scopes.len()
    }

    /// The number of bindings of the scope at position `scope_index`.
    pub fn count_bindings_of_scope(&self, scope_index: usize) -> (r: usize)
        requires
            scope_index < self.view().len(),
        ensures
            r == self.view()[scope_index as int].1.len(),
    {
        bindings_len(&self.scopes[scope_index].bindings)
    }

    /// The bindings of the scope at position `scope_index`, in order.
    pub fn bindings_of_scope(&self, scope_index: usize) -> (r: Vec<Binding>)
        requires
            scope_index < self.view().len(),
        ensures
            r@ == self.view()[scope_index as int].1.map_values(
                |e: (usize, BindingKind)| Binding { name: SymbolId(e.0), kind: e.1 },
            ),
    {
        let scope = &self.scopes[scope_index];
        let n = bindings_len(&scope.bindings);
        let ghost es = scope.entries();
        let mut out: Vec<Binding> = Vec::new();
        let mut i: usize = 0;
        while i < n
            invariant
                i <= n,
                n == es.len(),
                es == scope.entries(),
                out@ == es.map_values(|e: (usize, BindingKind)| Binding { name: SymbolId(e.0), kind: e.1 }).take(i as int),
            decreases n - i,
        {
            match bindings_get_index(&scope.bindings, i) {
                Some((k, kind)) => {
                    out.push(Binding { name: SymbolId(k), kind });
                },
                None => {},
            }
            assert(es.map_values(|e: (usize, BindingKind)| Binding { name: SymbolId(e.0), kind: e.1 }).take(i + 1) =~= out@);
            i = i + 1;
        }
        assert(es.map_values(|e: (usize, BindingKind)| Binding { name: SymbolId(e.0), kind: e.1 }).take(i as int)
            =~= es.map_values(|e: (usize, BindingKind)| Binding { name: SymbolId(e.0), kind: e.1 }));
        out
    }

    /// The names bound by the scope at position `scope_index`, in order.
    pub fn get_owned_bindings_of_scope(&self, scope_index: usize) -> (r: Vec<SymbolId>)
        requires
            scope_index < self.view().len(),
        ensures
            r@ == self.view()[scope_index as int].1.map_values(|e: (usize, BindingKind)| SymbolId(e.0)),
    {
        let bs = self.bindings_of_scope(scope_index);
        let ghost es = self.view()[scope_index as int].1;
        let mut out: Vec<SymbolId> = Vec::new();
        let mut i: usize = 0;
        while i < bs.len()
            invariant
                i <= bs@.len(),
                bs@ == es.map_values(|e: (usize, BindingKind)| Binding { name: SymbolId(e.0), kind: e.1 }),
                out@ == es.map_values(|e: (usize, BindingKind)| SymbolId(e.0)).take(i as int),
            decreases bs@.len() - i,
        {
            out.push(bs[i].name);
            assert(es.map_values(|e: (usize, BindingKind)| SymbolId(e.0)).take(i + 1) =~= out@);
            i = i + 1;
        }
        assert(es.map_values(|e: (usize, BindingKind)| SymbolId(e.0)).take(i as int) =~= es.map_values(|e: (usize, BindingKind)| SymbolId(e.0)));
        out
    }

    /// Clear all the scopes and bindings.
    pub fn clear_all(&mut self)
        ensures
            final(self).view() == Seq::<(ScopeKind, Seq<(usize, BindingKind)>)>::empty(),
    {
        self.scopes.clear();
        assert(self.view() =~= Seq::<(ScopeKind, Seq<(usize, BindingKind)>)>::empty());
    }
}

/// The innermost stack scope is a stack scope, and no later scope is.
pub proof fn lemma_closest_stack_scope(v: ContextView)
    ensures
        closest_stack_scope(v) matches Some(i) ==> 0 <= i < v.len() && v[i].0 is Stack
            && forall|j: int| i < j < v.len() ==> !(#[trigger] v[j].0 is Stack),
    decreases v.len(),
{
    if v.len() > 0 {
        let init = v.drop_last();
        lemma_closest_stack_scope(init);
        if !(v.last().0 is Stack) {
            if let Some(i) = closest_stack_scope(init) {
                assert(init[i] == v[i]);
                assert forall|j: int| i < j < v.len() implies !(#[trigger] v[j].0 is Stack) by {
                    if j < v.len() - 1 {
                        assert(init[j] == v[j]);
                    }
                }
            }
        }
    }
}

/// A binding added to the innermost scope is what a lookup of its name
/// finds, and the lookups of other names are unchanged.
pub proof fn lemma_lookup_after_add(v: ContextView, b: Binding, x: usize)
    requires
        v.len() > 0,
    ensures
        ctx_lookup(ctx_bind_in(v, v.len() - 1, b.name.0, b.kind), b.name.0) == Some(b.kind),
        x != b.name.0 ==> ctx_lookup(ctx_bind_in(v, v.len() - 1, b.name.0, b.kind), x) == ctx_lookup(v, x),
{
    let v2 = ctx_bind_in(v, v.len() - 1, b.name.0, b.kind);
    lemma_entry_insert(v.last().1, b.name.0, b.kind, x);
    assert(v2.last().1 == entry_insert(v.last().1, b.name.0, b.kind));
    assert(v2.drop_last() =~= v.drop_last());
}

/// A lookup finds the binding of the innermost scope that binds the name:
/// a binding in an inner scope shadows those of the outer ones.
pub proof fn lemma_inner_scope_shadows(v: ContextView, k: usize, i: int)
    requires
        0 <= i < v.len(),
        entry_lookup(v[i].1, k) is Some,
        forall|j: int| i < j < v.len() ==> entry_lookup(#[trigger] v[j].1, k) is None,
    ensures
        ctx_lookup(v, k) == entry_lookup(v[i].1, k),
    decreases v.len(),
{
    if i < v.len() - 1 {
        let init = v.drop_last();
        assert(entry_lookup(v[v.len() - 1].1, k) is None);
        assert forall|j: int| i < j < init.len() implies entry_lookup(#[trigger] init[j].1, k) is None by {
            assert(init[j] == v[j]);
        }
        assert(init[i] == v[i]);
        lemma_inner_scope_shadows(init, k, i);
    }
}

/// Entering a scope and then leaving it gives back the context as it was.
pub proof fn lemma_add_then_remove_scope(v: ContextView, kind: ScopeKind)
    ensures
        v.push((kind, Seq::<(usize, BindingKind)>::empty())).drop_last() == v,
        v.push((kind, Seq::<(usize, BindingKind)>::empty())).last() == (kind, Seq::<(usize, BindingKind)>::empty()),
{
    assert(v.push((kind, Seq::<(usize, BindingKind)>::empty())).drop_last() =~= v);
}

/// Changing the binding of a name changes what a lookup of it finds, and
/// nothing else that a lookup finds.
pub proof fn lemma_lookup_after_modify(v: ContextView, k: usize, b: BindingKind, x: usize)
    requires
        ctx_lookup(v, k) is Some,
    ensures
        ctx_lookup(ctx_bind_in(v, innermost_binding_scope(v, k)->0, k, b), k) == Some(b),
        x != k ==> ctx_lookup(ctx_bind_in(v, innermost_binding_scope(v, k)->0, k, b), x) == ctx_lookup(v, x),
    decreases v.len(),
{
    lemma_innermost_binding_scope(v, k);
    let i = innermost_binding_scope(v, k)->0;
    let v2 = ctx_bind_in(v, i, k, b);
    lemma_entry_insert(v[i].1, k, b, x);
    if i == v.len() - 1 {
        assert(v2.drop_last() =~= v.drop_last());
    } else {
        let init = v.drop_last();
        assert(entry_lookup(v.last().1, k) is None);
        assert(init[i] == v[i]);
        assert forall|j: int| i < j < init.len() implies entry_lookup(#[trigger] init[j].1, k) is None by {
            assert(init[j] == v[j]);
        }
        lemma_inner_scope_shadows(init, k, i);
        assert(innermost_binding_scope(init, k) == Some(i)) by {
            lemma_innermost_binding_scope(init, k);
            if let Some(i2) = innermost_binding_scope(init, k) {
                if i2 < i {
                    assert(entry_lookup(init[i].1, k) is Some);
                }
            }
        }
        lemma_lookup_after_modify(init, k, b, x);
        assert(v2.drop_last() =~= ctx_bind_in(init, i, k, b));
        assert(v2.last() == v.last());
        lemma_entry_insert(v.last().1, k, b, x);
    }
}

} // verus!

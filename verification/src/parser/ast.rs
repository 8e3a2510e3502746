//! The abstract syntax tree: types, definitions and expressions.

use vstd::prelude::*;

verus! {

/// A range of byte offsets in the input.
#[derive(Debug, Clone, Copy, PartialEq, Eq, Structural)]
pub struct Location {
    pub start: usize,
    pub end: usize,
}

/// A module of the input, by its index.
#[derive(Debug, Clone, Copy, PartialEq, Eq, Structural)]
pub struct ModuleIdx(pub usize);

/// A node of the tree: its value, its position and its module.
#[derive(Debug)]
pub struct AstNode<T> {
    pub body: Box<T>,
    pub pos: Location,
    pub module: ModuleIdx,
}

impl<T> AstNode<T> {
    /// A node with the given value, position and module.
    pub fn new(body: T, pos: Location, module: ModuleIdx) -> (r: Self)
        ensures
            *r.body == body,
            r.pos == pos,
            r.module == module,
    {
        AstNode { body: Box::new(body), pos, module }
    }

    /// The value of the node.
    pub fn body(&self) -> (r: &T)
        ensures
            *r == *self.body,
    {
        &self.body
    }
}

/// An intrinsic identifier, by its name without the "#".
#[derive(Debug, Clone, Copy, PartialEq, Eq)]
pub struct IntrinsicKey {
    pub name: &'static str,
}

/// A single name.
#[derive(Debug, Clone, Copy, PartialEq, Eq)]
pub struct Name {
    pub string: &'static str,
}

/// A namespaced name.
#[derive(Debug)]
pub struct AccessName {
    pub names: Vec<AstNode<Name>>,
}

/// A named type, with its type arguments.
#[derive(Debug)]
pub struct NamedType {
    pub name: AstNode<AccessName>,
    pub type_args: Vec<AstNode<Type>>,
}

/// A type variable.
#[derive(Debug)]
pub struct TypeVar {
    pub name: AstNode<Name>,
}

/// A type.
#[derive(Debug)]
pub enum Type {
    Named(NamedType),
    TypeVar(TypeVar),
    /// The existential type `?`.
    Existential,
    /// The type to infer.
    Infer,
}

/// An argument of a function definition, with its type if it is given.
#[derive(Debug)]
pub struct FunctionDefArg {
    pub name: AstNode<Name>,
    pub ty: Option<AstNode<Type>>,
}

/// A trait bound, such as `eq<T>`.
#[derive(Debug)]
pub struct TraitBound {
    pub name: AstNode<AccessName>,
    pub type_args: Vec<AstNode<Type>>,
}

/// A bound, such as `<T, U> where conv<U, T>`.
#[derive(Debug)]
pub struct Bound {
    pub type_args: Vec<AstNode<Type>>,
    pub trait_bounds: Vec<AstNode<TraitBound>>,
}

/// A variant of an enum definition, such as `Some(T)`.
#[derive(Debug)]
pub struct EnumDefEntry {
    pub name: AstNode<Name>,
    pub args: Vec<AstNode<Type>>,
}

/// An enum definition.
#[derive(Debug)]
pub struct EnumDef {
    pub name: AstNode<Name>,
    pub bound: AstNode<Bound>,
    pub entries: Vec<AstNode<EnumDefEntry>>,
}

/// A trait definition, whose type is expected to be a function type.
#[derive(Debug)]
pub struct TraitDef {
    pub name: AstNode<Name>,
    pub bound: AstNode<Bound>,
    pub trait_type: AstNode<Type>,
}

/// A logical operator, which short-circuits.
#[derive(Debug, Clone, Copy, PartialEq, Eq, Structural)]
pub enum LogicalOp {
    And,
    Or,
}

/// A variable expression, with type arguments for traits.
#[derive(Debug)]
pub struct VariableExpr {
    pub name: AstNode<AccessName>,
    pub type_args: Vec<AstNode<Type>>,
}

} // verus!

//! State of the semantic traversal.

use vstd::prelude::*;

use crate::reporting::SourceLocation;
use crate::tir::store::{PatId, SymbolId, TermId};

verus! {

/// The directives that apply at the current point of the traversal, as
/// bit flags.
#[derive(Clone, Copy, Debug, PartialEq, Eq, Structural)]
pub struct AppliedDirectives {
    pub bits: u8,
}

impl AppliedDirectives {
    /// Within an "intrinsics" directive: a module of the prelude that
    /// declares the intrinsic items of the language.
    pub const INTRINSICS: u8 = 0x2;
    /// Within an "entry_point" directive: a function definition that is
    /// the entry point.
    pub const ENTRY_POINT: u8 = 0x4;

    /// No directives.
    pub fn empty() -> (r: Self)
        ensures
            r.bits == 0,
    {
        AppliedDirectives { bits: 0 }
    }

    /// Whether all the given flags are set.
    pub fn contains(&self, flags: u8) -> (r: bool)
        ensures
            r == (self.bits & flags == flags),
    {
        self.bits & flags == flags
    }

    /// Set the given flags.
    pub fn insert(&mut self, flags: u8)
        ensures
            final(self).bits == old(self).bits | flags,
    {
        self.bits = self.bits | flags;
    }

    /// Whether `intrinsics` is set.
    pub fn is_intrinsics(&self) -> (r: bool)
        ensures
            r == (self.bits & 0x2 == 0x2),
    {
        self.contains(Self::INTRINSICS)
    }

    /// Whether `entry_point` is set.
    pub fn is_entry_point(&self) -> (r: bool)
        ensures
            r == (self.bits & 0x4 == 0x4),
    {
        self.contains(Self::ENTRY_POINT)
    }
}

/// Whether a member can be changed.
#[derive(Debug, Clone, Copy, PartialEq, Eq, Structural)]
pub enum Mutability {
    Mutable,
    Immutable,
}

/// Whether a member can be seen outside its scope.
#[derive(Debug, Clone, Copy, PartialEq, Eq, Structural)]
pub enum Visibility {
    Public,
    Private,
}

/// The pattern of a declaration, as the declaration reads it: a binding of
/// a name, or any other pattern.
#[derive(Debug, Clone, Copy, PartialEq, Eq, Structural)]
pub enum DeclaredPat {
    Binding { name: SymbolId, mutability: Mutability, visibility: Visibility },
    Other,
}

/// An error of a declaration.
#[derive(Debug, Clone, Copy, PartialEq, Eq, Structural)]
pub enum DeclarationError {
    /// A member without a value outside a trait definition.
    UninitialisedMemberNotAllowed { member: SourceLocation },
    /// A constant member of a trait that is declared mutable.
    MemberMustBeImmutable { name: SymbolId, site: SourceLocation },
    /// A pattern other than a binding, without a value to match it with.
    CannotPatMatchWithoutAssignment { pat: PatId },
}

/// What a declaration without a value declares.
#[derive(Debug, Clone, Copy, PartialEq, Eq, Structural)]
pub enum ValuelessDeclaration {
    /// Within the intrinsics, the value is a run-time term of the declared
    /// type.
    RuntimeValue,
    /// An uninitialised constant member of a trait, of the given type, with
    /// an error to report beside it when it is declared mutable.
    UninitialisedConstant { name: SymbolId, visibility: Visibility, ty: TermId, error: Option<DeclarationError> },
}

/// What a declaration without a value declares, or the error it is.
pub open spec fn spec_declare_without_value(
    pat_id: PatId,
    pat: DeclaredPat,
    ty: TermId,
    in_trait: bool,
    directives: AppliedDirectives,
    decl_location: SourceLocation,
    pat_location: SourceLocation,
) -> Result<ValuelessDeclaration, DeclarationError> {
    if directives.bits & 0x2 == 0x2 {
        Ok(ValuelessDeclaration::RuntimeValue)
    } else if !in_trait {
        Err(DeclarationError::UninitialisedMemberNotAllowed { member: decl_location })
    } else {
        match pat {
            DeclaredPat::Binding { name, mutability, visibility } => Ok(
                ValuelessDeclaration::UninitialisedConstant {
                    name,
                    visibility,
                    ty,
                    error: if mutability == Mutability::Mutable {
                        Some(DeclarationError::MemberMustBeImmutable { name, site: pat_location })
                    } else {
                        None
                    },
                },
            ),
            DeclaredPat::Other => Err(DeclarationError::CannotPatMatchWithoutAssignment { pat: pat_id }),
        }
    }
}

/// Decide what a declaration without a value declares. Within the
/// intrinsics it gets a run-time value of its type. Elsewhere only a trait
/// definition may declare a member without a value: a binding there is an
/// uninitialised constant, which must not be mutable; any other pattern
/// cannot be matched without a value.
pub fn declare_without_value(
    pat_id: PatId,
    pat: DeclaredPat,
    ty: TermId,
    in_trait: bool,
    directives: AppliedDirectives,
    decl_location: SourceLocation,
    pat_location: SourceLocation,
) -> (r: Result<ValuelessDeclaration, DeclarationError>)
    ensures
        r == spec_declare_without_value(pat_id, pat, ty, in_trait, directives, decl_location, pat_location),
{
    if directives.is_intrinsics() {
        return Ok(ValuelessDeclaration::RuntimeValue);
    }
    if !in_trait {
        return Err(DeclarationError::UninitialisedMemberNotAllowed { member: decl_location });
    }
    match pat {
        DeclaredPat::Binding { name, mutability, visibility } => {
            let error = match mutability {
                Mutability::Mutable => Some(DeclarationError::MemberMustBeImmutable { name, site: pat_location }),
                Mutability::Immutable => None,
            };
            Ok(ValuelessDeclaration::UninitialisedConstant { name, visibility, ty, error })
        },
        DeclaredPat::Other => Err(DeclarationError::CannotPatMatchWithoutAssignment { pat: pat_id }),
    }
}

} // verus!

//! Traits, their bounds, and the core traits of the language.

use vstd::prelude::*;

verus! {

/// A trait, by its number.
#[derive(Debug, Clone, Copy, PartialEq, Eq, Structural)]
pub struct TraitId(pub u32);

/// A type, by its number.
#[derive(Debug, Clone, Copy, PartialEq, Eq, Structural)]
pub struct TypeId(pub u32);

/// A bound: a trait applied to type parameters.
pub struct TraitBound {
    pub trt: TraitId,
    pub params: Vec<TypeId>,
}

/// A list of bounds.
pub struct TraitBounds {
    pub bounds: Vec<TraitBound>,
}

impl TraitBounds {
    /// No bounds.
    pub fn empty() -> (r: Self)
        ensures
            r.bounds@.len() == 0,
    {
        TraitBounds { bounds: Vec::new() }
    }
}

/// The traits that the language itself relies on.
#[derive(Debug, Clone, Copy, PartialEq, Eq, Structural)]
pub struct CoreTraits {
    pub hash: TraitId,
    pub eq: TraitId,
}

} // verus!

//! Typechecking operations over the TIR.

pub mod substitution;
pub mod params;
pub mod traits;
pub mod infer;

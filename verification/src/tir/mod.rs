//! The typed intermediate representation of the typechecker.

pub mod store;
pub mod visitor;
pub mod sub;
pub mod params;
pub mod context;
pub mod common;
pub mod defs;
pub mod intrinsics;
pub mod fallible;

//! Verified core of the Hash compiler: the intermediate representation,
//! the typechecking context, parameter validation, substitution over the
//! typed intermediate representation, and supporting diagnostics types.

pub mod smallvecs;
pub mod ir;
pub mod tir;
pub mod typecheck;
pub mod const_fold;
pub mod abi;
pub mod reporting;
pub mod messaging;
pub mod parser;
pub mod driver;
pub mod codegen;
pub mod semantics;
pub mod semantic_error;
pub mod resolution;
pub mod lower;

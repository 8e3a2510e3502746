//! The syntax of the Hash front end: the abstract syntax tree, and the
//! diagnostics of the parser.

pub mod ast;
pub mod diagnostics;

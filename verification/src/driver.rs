//! General errors of the compiler driver.

use vstd::prelude::*;

verus! {

/// Errors that might occur when running a program.
#[derive(Debug, Clone, Copy, PartialEq, Eq, Structural)]
pub enum ErrorType {
    IoError,
    InternalError,
}

impl Default for ErrorType {
    fn default() -> (r: Self)
        ensures
            r == ErrorType::InternalError,
    {
        ErrorType::InternalError
    }
}

/// The prefix of the message of an error of the given type.
pub fn error_prefix(err_type: ErrorType) -> (r: &'static str)
    ensures
        r@ == match err_type {
            ErrorType::IoError => "Failed to read file"@,
            ErrorType::InternalError => "Internal Panic"@,
        },
{
    match err_type {
        ErrorType::IoError => "Failed to read file",
        ErrorType::InternalError => "Internal Panic",
    }
}

} // verus!

//! The messages that are passed in and out of the compiler.

use vstd::prelude::*;

use crate::reporting::Report;

verus! {

/// The format of the messages that the compiler emits and receives.
#[derive(Debug, Clone, Copy, PartialEq, Eq, Structural)]
pub enum CompilerMessagingFormat {
    /// Messages in JSON, following the schema of the messages.
    Json,
    /// Messages as the compiler normally displays them.
    Normal,
}

/// A message that the compiler emits.
pub enum CompilerOutputMessage {
    /// A diagnostic.
    Report(Report),
}

} // verus!

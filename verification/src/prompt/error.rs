//! Error type for prompt operations.

use vstd::prelude::*;

verus! {

#[verifier::external_type_specification]
#[verifier::external_body]
pub struct ExIoError(std::io::Error);

/// Error returned by a prompt run.
#[derive(Debug)]
pub enum PromptError {
    /// User pressed Ctrl+C, Ctrl+D or Escape.
    Interrupted,
    /// I/O error reading from stdin or writing to stderr.
    Io(std::io::Error),
}

/// Result alias for prompt operations.
pub type Result<T> = core::result::Result<T, PromptError>;

/// `true` when the error came from Ctrl+C / Ctrl+D / Escape.
pub fn is_cancel(err: &PromptError) -> (r: bool)
    ensures
        r == (*err is Interrupted),
{
    match err {
        PromptError::Interrupted => true,
        PromptError::Io(_) => false,
    }
}

} // verus!

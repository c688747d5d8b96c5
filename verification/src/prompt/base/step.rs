//! Outcome of a single key press inside a prompt.

use vstd::prelude::*;

verus! {

/// The transition a prompt requests after handling one key.
#[derive(Debug)]
pub enum Step<T> {
    /// State changed but we're not finished — keep reading keys.
    Continue,
    /// Done; deliver `T` to the caller.
    Submit(T),
    /// User asked to abort (Esc, Ctrl-C, …).
    Cancel,
    /// Block submission and display the message under the input.
    Reject(String),
}

} // verus!

//! Chained prompts: what the chain does with each step's outcome. The
//! steps (closures that run prompts) run outside.

use vstd::prelude::*;
use super::error::PromptError;

verus! {

/// What the chain does after one step.
#[derive(Debug)]
pub enum GroupAction {
    /// Record the answer under the step's name and go on.
    Record(String),
    /// The user cancelled: show the cancel banner and stop with an
    /// interruption.
    Cancel,
    /// Stop with this error.
    Fail(PromptError),
}

/// The chain's decision for one step's outcome: an answer is recorded, an
/// interruption cancels the chain, any other error ends it.
pub fn group_action(outcome: core::result::Result<String, PromptError>) -> (r: GroupAction)
    ensures
        match outcome {
            Ok(v) => r matches GroupAction::Record(x) && x == v,
            Err(PromptError::Interrupted) => r is Cancel,
            Err(PromptError::Io(e)) => r matches GroupAction::Fail(PromptError::Io(x)) && x == e,
        },
{
    match outcome {
        Ok(v) => GroupAction::Record(v),
        Err(PromptError::Interrupted) => GroupAction::Cancel,
        Err(e) => GroupAction::Fail(e),
    }
}

} // verus!

//! The runner's decisions: what one step of a prompt means for the key
//! loop. The loop itself (raw mode, reading keys, drawing) runs outside.

use vstd::prelude::*;
use super::step::Step;

verus! {

/// What the key loop does after a prompt handled one key.
#[derive(Debug)]
pub enum Outcome<T> {
    /// Redraw the frame, with this error message (or none).
    Redraw(Option<String>),
    /// The prompt submitted this value: leave the loop.
    Done(T),
    /// The user cancelled: clean up and report an interruption.
    Cancelled,
}

/// The loop's decision for one step: `Continue` clears the error,
/// `Reject` shows its message, `Submit` finishes, `Cancel` interrupts.
pub fn decide<T>(step: Step<T>) -> (r: Outcome<T>)
    ensures
        match step {
            Step::Continue => r matches Outcome::Redraw(None),
            Step::Reject(m) => r matches Outcome::Redraw(Some(e)) && e == m,
            Step::Submit(v) => r matches Outcome::Done(x) && x == v,
            Step::Cancel => r is Cancelled,
        },
{
    match step {
        Step::Continue => Outcome::Redraw(None),
        Step::Reject(m) => Outcome::Redraw(Some(m)),
        Step::Submit(v) => Outcome::Done(v),
        Step::Cancel => Outcome::Cancelled,
    }
}

/// Whether a clean frame must be drawn before the answered display: only
/// when the frame on screen still shows an error.
pub fn needs_clean_redraw(error: &Option<String>) -> (r: bool)
    ensures
        r == error.is_some(),
{
    error.is_some()
}

} // verus!

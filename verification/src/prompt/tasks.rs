//! Sequential tasks, each under its own spinner: what each spinner ends
//! with. The tasks themselves run outside.

use vstd::prelude::*;
use crate::strutil::owned;

verus! {

/// The message a finished task's spinner stops with: the task's own final
/// message, or its title when it gave none.
pub fn task_final(result: Option<String>, title: &str) -> (r: String)
    ensures
        r@ == match result {
            Some(m) => m@,
            None => title@,
        },
{
    match result {
        Some(m) => m,
        None => owned(title),
    }
}

} // verus!

//! Core abstractions every prompt implements: a prompt handles one key at
//! a time (returning a [`Step`]) and renders its state as a [`Frame`].

pub mod frame;
pub mod runner;
pub mod step;

pub use frame::{Frame, RenderCtx};
pub use step::Step;
pub use super::engine::Key;

use vstd::prelude::*;

verus! {

/// The contract every interactive prompt implements.
pub trait Prompt {
    /// The value returned to the caller on successful submission.
    type Output;

    /// The prompt can take `key` without a precondition failing.
    spec fn handle_ok(&self, key: Key) -> bool;

    /// The prompt's state can be rendered.
    spec fn render_ok(&self) -> bool;

    /// Apply a key press to the prompt's state.
    fn handle(&mut self, key: Key) -> Step<Self::Output>
        requires
            old(self).handle_ok(key),
    ;

    /// Render the prompt's current state, one entry per terminal row.
    fn render(&self, ctx: RenderCtx) -> Frame
        requires
            self.render_ok(),
    ;

    /// Render the post-submission display.
    fn render_answered(&self, value: &Self::Output) -> Frame;
}

} // verus!

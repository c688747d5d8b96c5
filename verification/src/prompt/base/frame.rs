//! A `Frame` is one screen-worth of prompt output, one entry per terminal row.

use vstd::prelude::*;

verus! {

/// One screen's worth of prompt output; each `String` is one terminal row.
pub type Frame = Vec<String>;

/// The rows of a frame as character sequences.
pub open spec fn rows(f: Frame) -> Seq<Seq<char>> {
    f@.map_values(|x: String| x@)
}

/// Information the runner hands to `Prompt::render` on every frame.
pub struct RenderCtx<'a> {
    /// `Some(msg)` when the previous key was rejected with `msg`.
    pub error: Option<&'a str>,
}

impl<'a> RenderCtx<'a> {
    /// The error message as characters.
    pub open spec fn error_view(&self) -> Option<Seq<char>> {
        match self.error {
            Some(m) => Some(m@),
            None => None,
        }
    }
}

} // verus!

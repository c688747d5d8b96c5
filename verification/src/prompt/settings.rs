//! Prompt settings — the colour palette, default messages and key
//! behaviours that every prompt renders with.

use vstd::prelude::*;
use crate::styles::{
    badge_intro, bold, cyan, dim, err, ok, spec_badge_intro, spec_bold, spec_cyan, spec_dim,
    spec_err, spec_ok, spec_white, spec_white_bold, spec_yellow, white, white_bold, yellow, Style,
};
use crate::strutil::owned;

verus! {

/// Every colour slot the prompt theme reads.
#[derive(Clone, Copy, PartialEq, Eq, Debug)]
pub struct Colors {
    /// Small accent glyphs — radio dots, checkboxes, the active diamond.
    pub accent: Style,
    /// The `│` bar down the side of the active prompt and its closing `└`.
    pub active: Style,
    /// Live user input and the inline cursor block.
    pub input: Style,
    /// Answered prompt glyph (`◇`) and success markers.
    pub success: Style,
    /// Error glyph (`▲`), error frame bar, error message text.
    pub error: Style,
    /// Cancel glyph (`■`) and cancel banner.
    pub cancel: Style,
    /// Frame bars, placeholder text, idle option labels.
    pub dim: Style,
    /// Question text on the header line.
    pub header: Style,
    /// Question text when bold headers are off.
    pub header_plain: Style,
    /// Title style used by `outro` and `note`.
    pub title: Style,
    /// The `intro` pill.
    pub intro_badge: Style,
}

impl Colors {
    /// The default palette.
    pub open spec fn spec_default() -> Colors {
        Colors {
            accent: spec_cyan(),
            active: spec_cyan(),
            input: spec_white(),
            success: spec_ok(),
            error: spec_yellow(),
            cancel: spec_err(),
            dim: spec_dim(),
            header: spec_white_bold(),
            header_plain: spec_white(),
            title: spec_bold(),
            intro_badge: spec_badge_intro(),
        }
    }
}

impl Default for Colors {
    fn default() -> (r: Colors)
        ensures
            r == Colors::spec_default(),
    {
        Colors {
            accent: cyan(),
            active: cyan(),
            input: white(),
            success: ok(),
            error: yellow(),
            cancel: err(),
            dim: dim(),
            header: white_bold(),
            header_plain: white(),
            title: bold(),
            intro_badge: badge_intro(),
        }
    }
}

/// Prompt settings — colour palette, default messages, key behaviours.
#[derive(Clone, Debug)]
pub struct Settings {
    /// Default message printed when a spinner is cancelled.
    pub cancel: String,
    /// Default message printed when a spinner stops with an error.
    pub error: String,
    /// When `false`, prompts skip the connector `│` bars between rows.
    pub with_guide: bool,
    /// When `true`, h/j/k/l act as left/down/up/right inside list prompts.
    pub vim_keys: bool,
    /// When `true`, `.hint(...)` text is rendered under each prompt.
    pub show_hints: bool,
    /// When `true`, prompt question text is bold.
    pub bold_header: bool,
    /// Colour palette used by the prompt renderer.
    pub colors: Colors,
}

impl Settings {
    /// The flags and palette of the default settings.
    pub open spec fn is_default_flags(&self) -> bool {
        &&& self.with_guide
        &&& self.vim_keys
        &&& !self.show_hints
        &&& self.bold_header
        &&& self.colors == Colors::spec_default()
    }
}

impl Default for Settings {
    fn default() -> (r: Settings)
        ensures
            r.cancel@ == "Operation cancelled."@,
            r.error@ == "Something went wrong."@,
            r.is_default_flags(),
    {
        Settings {
            cancel: owned("Operation cancelled."),
            error: owned("Something went wrong."),
            with_guide: true,
            vim_keys: true,
            show_hints: false,
            bold_header: true,
            colors: Colors::default(),
        }
    }
}

} // verus!

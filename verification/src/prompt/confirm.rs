//! Boolean confirmation prompt.

use vstd::prelude::*;
use crate::strutil::{lowercase, owned, split_on, str_eq, to_lowercase};
use crate::styles::{accent, dim, paint, painted, spec_accent, spec_dim, spec_white, white};
use super::base::{Frame, Key, Prompt, RenderCtx, Step, frame::rows};
use super::settings::Settings;
use super::text::{answered_rows, crlf};
use super::theme::{
    confirm_line, frame_bot, label, spec_answered, spec_confirm_line, spec_frame_bot,
    spec_label_state,
};

verus! {

broadcast use vstd::string::group_string_axioms;

/// Builder returned by [`confirm()`].
pub struct ConfirmPrompt {
    label: String,
    default: Option<bool>,
    value: bool,
    settings: Settings,
}

/// Ask the user a yes/no question. Returns `true` for Yes.
pub fn confirm(label: &str) -> (r: ConfirmPrompt)
    ensures
        r.label_view() == label@,
        r.default_view() == None::<bool>,
        r.value() == true,
        r.settings_view().is_default_flags(),
{
    ConfirmPrompt { label: owned(label), default: None, value: true, settings: Settings::default() }
}

impl ConfirmPrompt {
    pub closed spec fn label_view(&self) -> Seq<char> {
        self.label@
    }

    pub closed spec fn default_view(&self) -> Option<bool> {
        self.default
    }

    /// The currently selected answer.
    pub closed spec fn value(&self) -> bool {
        self.value
    }

    pub closed spec fn settings_view(&self) -> Settings {
        self.settings
    }

    /// Initial selection, also the answer when the user just hits Enter.
    pub fn default(self, v: bool) -> (r: ConfirmPrompt)
        ensures
            r.default_view() == Some(v),
            r.value() == v,
            r.label_view() == self.label_view(),
            r.settings_view() == self.settings_view(),
    {
        ConfirmPrompt { default: Some(v), value: v, ..self }
    }

    /// The answer a fallback line gives, compared in lowercase: `y` or
    /// `yes` is yes, `n` or `no` is no, an empty line is the default when
    /// there is one; anything else gives no answer (ask again).
    pub fn fallback_answer(&self, line: &str) -> (r: Option<bool>)
        ensures
            ({
                let l = lowercase(line@);
                if l == "y"@ || l == "yes"@ {
                    r == Some(true)
                } else if l == "n"@ || l == "no"@ {
                    r == Some(false)
                } else if l.len() == 0 {
                    r == self.default_view()
                } else {
                    r is None
                }
            }),
    {
        let l = to_lowercase(line);
        if str_eq(l.as_str(), "y") || str_eq(l.as_str(), "yes") {
            Some(true)
        } else if str_eq(l.as_str(), "n") || str_eq(l.as_str(), "no") {
            Some(false)
        } else if l.as_str().is_empty() {
            self.default
        } else {
            None
        }
    }

    /// The answers offered: `Y/n` with a yes default, `y/N` with a no
    /// default, else `y/n`.
    pub open spec fn choices(&self) -> Seq<char> {
        match self.default_view() {
            Some(true) => "Y/n"@,
            Some(false) => "y/N"@,
            None => "y/n"@,
        }
    }

    /// The question of the fallback: the diamond, the label, the answers
    /// offered.
    pub fn fallback_ask(&self) -> (r: String)
        ensures
            r@ == painted(spec_accent(), "◆"@) + "  "@ + painted(spec_white(), self.label_view()) + " ["@
                + painted(spec_dim(), self.choices()) + "]: "@,
    {
        let choices = match self.default {
            Some(true) => "Y/n",
            Some(false) => "y/N",
            None => "y/n",
        };
        let mut out = paint(accent(), "◆");
        out.append("  ");
        let l = paint(white(), self.label.as_str());
        out.append(l.as_str());
        out.append(" [");
        let c = paint(dim(), choices);
        out.append(c.as_str());
        out.append("]: ");
        out
    }

    /// The answer to a line that is neither yes nor no.
    pub fn fallback_retry(&self) -> (r: String)
        ensures
            r@ == "  Please enter y or n: "@,
    {
        owned("  Please enter y or n: ")
    }

    /// Render and read key behaviour with `s` in place of the defaults.
    pub fn settings(self, s: Settings) -> (r: ConfirmPrompt)
        ensures
            r.settings_view() == s,
            r.default_view() == self.default_view(),
            r.value() == self.value(),
            r.label_view() == self.label_view(),
    {
        ConfirmPrompt { settings: s, ..self }
    }
}

impl Prompt for ConfirmPrompt {
    type Output = bool;

    open spec fn handle_ok(&self, key: Key) -> bool {
        true
    }

    open spec fn render_ok(&self) -> bool {
        true
    }

    /// Left/Right toggle, `y`/`n` (either case) answer at once, Enter
    /// answers with the selection, Escape and Ctrl-C cancel.
    fn handle(&mut self, key: Key) -> (r: Step<bool>)
        ensures
            final(self).label_view() == old(self).label_view(),
            final(self).default_view() == old(self).default_view(),
            final(self).settings_view() == old(self).settings_view(),
            (key == Key::Left || key == Key::Right) ==> r is Continue && final(self).value()
                == !old(self).value(),
            !(key == Key::Left || key == Key::Right) ==> final(self).value() == old(self).value(),
            (key == Key::Char('y') || key == Key::Char('Y')) ==> r == Step::<bool>::Submit(true),
            (key == Key::Char('n') || key == Key::Char('N')) ==> r == Step::<bool>::Submit(false),
            key == Key::Enter ==> r == Step::<bool>::Submit(old(self).value()),
            (key == Key::Escape || key == Key::Interrupt) ==> r is Cancel,
            !(key == Key::Left || key == Key::Right || key == Key::Char('y') || key == Key::Char(
                'Y',
            ) || key == Key::Char('n') || key == Key::Char('N') || key == Key::Enter || key
                == Key::Escape || key == Key::Interrupt) ==> r is Continue,
    {
        match key {
            Key::Left | Key::Right => {
                self.value = !self.value;
                Step::Continue
            },
            Key::Char('y') | Key::Char('Y') => Step::Submit(true),
            Key::Char('n') | Key::Char('N') => Step::Submit(false),
            Key::Enter => Step::Submit(self.value),
            Key::Escape | Key::Interrupt => Step::Cancel,
            _ => Step::Continue,
        }
    }

    /// Label row, the Yes/No row, bottom row.
    fn render(&self, _ctx: RenderCtx) -> (r: Frame)
        ensures
            rows(r) == seq![
                spec_label_state(self.label_view(), false, &self.settings_view()),
                spec_confirm_line(self.value(), &self.settings_view()),
                spec_frame_bot(None, &self.settings_view()),
            ],
    {
        let mut f: Frame = Vec::new();
        f.push(label(self.label.as_str(), &self.settings));
        f.push(confirm_line(self.value, &self.settings));
        f.push(frame_bot(None, &self.settings));
        proof {
            assert(rows(f) =~= seq![
                spec_label_state(self.label_view(), false, &self.settings_view()),
                spec_confirm_line(self.value(), &self.settings_view()),
                spec_frame_bot(None, &self.settings_view()),
            ]);
        }
        f
    }

    /// Question, `Yes` or `No`, connector.
    fn render_answered(&self, value: &bool) -> (r: Frame)
        ensures
            rows(r) == split_on(
                spec_answered(
                    self.label_view(),
                    if *value { "Yes"@ } else { "No"@ },
                    &self.settings_view(),
                ),
                crlf(),
            ),
    {
        answered_rows(self.label.as_str(), if *value { "Yes" } else { "No" }, &self.settings)
    }
}

} // verus!

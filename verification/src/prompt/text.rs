//! Free-text and masked password prompts.

use vstd::prelude::*;
use crate::strutil::{chars_of, fill, owned, split_str, split_on, string_of};
use crate::styles::{accent, dim, paint, painted, spec_accent, spec_dim, spec_white, white};
use super::base::{Frame, Key, Prompt, RenderCtx, Step, frame::rows};
use super::cursor::{inserted, removed, skip_space_back, skip_word_back, LineBuf};
use super::settings::Settings;
use super::theme::{
    answered, frame_bot, hint, input_bar, label_state, spec_answered, spec_frame_bot, spec_hint,
    spec_input_bar, spec_label_state,
};
use super::validate::{Validate, Validator, Verdict};

verus! {

broadcast use vstd::string::group_string_axioms;

pub open spec fn opt_seq(o: Option<String>) -> Option<Seq<char>> {
    match o {
        Some(s) => Some(s@),
        None => None,
    }
}

/// `CR LF`, the separator of the answered display.
pub open spec fn crlf() -> Seq<char> {
    seq!['\r', '\n']
}

pub(crate) fn crlf_string() -> (r: String)
    ensures
        r@ == crlf(),
{
    let mut s = String::new();
    crate::strutil::push_char(&mut s, '\r');
    crate::strutil::push_char(&mut s, '\n');
    s
}

/// The answered display split into its rows.
pub(crate) fn answered_rows(label: &str, value: &str, s: &Settings) -> (r: Frame)
    ensures
        rows(r) == split_on(spec_answered(label@, value@, s), crlf()),
{
    let a = answered(label, value, s);
    let sep = crlf_string();
    split_str(a.as_str(), sep.as_str())
}

/// What a check with this validator and verdict may give for `value`:
/// `Submit(value)` on acceptance, `Reject(msg)` on rejection.
pub open spec fn validated_step(rule: Option<Validator>, value: Seq<char>, r: Step<String>) -> bool {
    match rule {
        None => r matches Step::Submit(v) && v@ == value,
        Some(val) => match val.verdict(value) {
            Verdict::Accept => r matches Step::Submit(v) && v@ == value,
            Verdict::Reject(m) => r matches Step::Reject(e) && e@ == m,
            Verdict::Unknown => (r matches Step::Submit(v) && v@ == value) || r is Reject,
        },
    }
}

pub(crate) fn run_rule(rule: &Option<Validator>, value: String) -> (r: Step<String>)
    ensures
        validated_step(*rule, value@, r),
{
    match rule {
        Some(v) => match v.check(value.as_str()) {
            Err(msg) => Step::Reject(msg),
            Ok(()) => Step::Submit(value),
        },
        None => Step::Submit(value),
    }
}

// ─────────────────────────────────────────────────────────────────────────────
// TextPrompt
// ─────────────────────────────────────────────────────────────────────────────

/// Builder returned by [`text()`].
pub struct TextPrompt {
    label: String,
    default: Option<String>,
    placeholder: Option<String>,
    hint: Option<String>,
    validate: Option<Validator>,
    buf: LineBuf,
    settings: Settings,
}

/// Ask the user for one line of text.
pub fn text(label: &str) -> (r: TextPrompt)
    ensures
        r.wf(),
        r.label_view() == label@,
        r.default_view() == None::<Seq<char>>,
        r.placeholder_view() == None::<Seq<char>>,
        r.hint_view() == None::<Seq<char>>,
        r.rule_view() == None::<Validator>,
        r.content() == Seq::<char>::empty(),
        r.cursor() == 0,
        r.settings_view().is_default_flags(),
{
    TextPrompt {
        label: owned(label),
        default: None,
        placeholder: None,
        hint: None,
        validate: None,
        buf: LineBuf::new(),
        settings: Settings::default(),
    }
}

impl TextPrompt {
    pub closed spec fn wf(&self) -> bool {
        self.buf.wf()
    }

    pub closed spec fn label_view(&self) -> Seq<char> {
        self.label@
    }

    pub closed spec fn default_view(&self) -> Option<Seq<char>> {
        opt_seq(self.default)
    }

    pub closed spec fn placeholder_view(&self) -> Option<Seq<char>> {
        opt_seq(self.placeholder)
    }

    pub closed spec fn hint_view(&self) -> Option<Seq<char>> {
        opt_seq(self.hint)
    }

    pub closed spec fn rule_view(&self) -> Option<Validator> {
        self.validate
    }

    pub closed spec fn content(&self) -> Seq<char> {
        self.buf.content()
    }

    pub closed spec fn cursor(&self) -> nat {
        self.buf.cursor()
    }

    pub closed spec fn settings_view(&self) -> Settings {
        self.settings
    }

    /// Everything but the buffer is the same in `a` and `b`.
    pub open spec fn same_config(a: &TextPrompt, b: &TextPrompt) -> bool {
        &&& a.label_view() == b.label_view()
        &&& a.default_view() == b.default_view()
        &&& a.placeholder_view() == b.placeholder_view()
        &&& a.hint_view() == b.hint_view()
        &&& a.rule_view() == b.rule_view()
        &&& a.settings_view() == b.settings_view()
    }

    /// The value submitted: the buffer, or the default when it is empty.
    pub open spec fn submit_view(&self) -> Seq<char> {
        if self.content().len() == 0 {
            match self.default_view() {
                Some(d) => d,
                None => Seq::empty(),
            }
        } else {
            self.content()
        }
    }

    /// Value used when the user submits an empty buffer.
    pub fn default(self, v: &str) -> (r: TextPrompt)
        ensures
            r.default_view() == Some(v@),
            r.wf() == self.wf(),
            r.label_view() == self.label_view(),
            r.placeholder_view() == self.placeholder_view(),
            r.hint_view() == self.hint_view(),
            r.rule_view() == self.rule_view(),
            r.content() == self.content(),
            r.cursor() == self.cursor(),
            r.settings_view() == self.settings_view(),
    {
        TextPrompt { default: Some(owned(v)), ..self }
    }

    /// Dim text shown in the input area before the user types anything.
    pub fn placeholder(self, v: &str) -> (r: TextPrompt)
        ensures
            r.placeholder_view() == Some(v@),
            r.wf() == self.wf(),
            r.label_view() == self.label_view(),
            r.default_view() == self.default_view(),
            r.hint_view() == self.hint_view(),
            r.rule_view() == self.rule_view(),
            r.content() == self.content(),
            r.cursor() == self.cursor(),
            r.settings_view() == self.settings_view(),
    {
        TextPrompt { placeholder: Some(owned(v)), ..self }
    }

    /// One-line hint rendered under the label when the settings show hints.
    pub fn hint(self, v: &str) -> (r: TextPrompt)
        ensures
            r.hint_view() == Some(v@),
            r.wf() == self.wf(),
            r.label_view() == self.label_view(),
            r.default_view() == self.default_view(),
            r.placeholder_view() == self.placeholder_view(),
            r.rule_view() == self.rule_view(),
            r.content() == self.content(),
            r.cursor() == self.cursor(),
            r.settings_view() == self.settings_view(),
    {
        TextPrompt { hint: Some(owned(v)), ..self }
    }

    /// Validate with an ad-hoc closure: `Ok(())` accepts, `Err(msg)` rejects.
    pub fn validate<F: Fn(&str) -> Result<(), String> + Send + Sync + 'static>(self, f: F) -> (r: TextPrompt)
        ensures
            r.rule_view() matches Some(v) && forall|s: Seq<char>| #[trigger] v.verdict(s) == Verdict::Unknown,
            r.wf() == self.wf(),
            r.label_view() == self.label_view(),
            r.default_view() == self.default_view(),
            r.placeholder_view() == self.placeholder_view(),
            r.hint_view() == self.hint_view(),
            r.content() == self.content(),
            r.cursor() == self.cursor(),
            r.settings_view() == self.settings_view(),
    {
        TextPrompt { validate: Some(Validator::new(f)), ..self }
    }

    /// Apply a composed [`Validator`] from the rules library.
    pub fn rule(self, v: Validator) -> (r: TextPrompt)
        ensures
            r.rule_view() == Some(v),
            r.wf() == self.wf(),
            r.label_view() == self.label_view(),
            r.default_view() == self.default_view(),
            r.placeholder_view() == self.placeholder_view(),
            r.hint_view() == self.hint_view(),
            r.content() == self.content(),
            r.cursor() == self.cursor(),
            r.settings_view() == self.settings_view(),
    {
        TextPrompt { validate: Some(v), ..self }
    }

    /// Deprecated alias for [`rule`](Self::rule).
    pub fn validate_with(self, v: Validator) -> (r: TextPrompt)
        ensures
            r.rule_view() == Some(v),
            r.wf() == self.wf(),
            r.label_view() == self.label_view(),
            r.default_view() == self.default_view(),
            r.placeholder_view() == self.placeholder_view(),
            r.hint_view() == self.hint_view(),
            r.content() == self.content(),
            r.cursor() == self.cursor(),
            r.settings_view() == self.settings_view(),
    {
        self.rule(v)
    }

    /// Render and read key behaviour with `s` in place of the defaults.
    pub fn settings(self, s: Settings) -> (r: TextPrompt)
        ensures
            r.settings_view() == s,
            r.wf() == self.wf(),
            r.label_view() == self.label_view(),
            r.default_view() == self.default_view(),
            r.placeholder_view() == self.placeholder_view(),
            r.hint_view() == self.hint_view(),
            r.rule_view() == self.rule_view(),
            r.content() == self.content(),
            r.cursor() == self.cursor(),
    {
        TextPrompt { settings: s, ..self }
    }

    fn submit_value(&self) -> (r: String)
        requires
            self.wf(),
        ensures
            r@ == self.submit_view(),
    {
        if self.buf.is_empty() {
            match &self.default {
                Some(d) => d.clone(),
                None => String::new(),
            }
        } else {
            owned(self.buf.value())
        }
    }

    /// The default as shown in the question: ` (default: d)`, or nothing.
    pub open spec fn default_note(&self) -> Seq<char> {
        match self.default_view() {
            Some(d) => " (default: "@ + d + ")"@,
            None => Seq::<char>::empty(),
        }
    }

    /// The question of the fallback: the label and the default.
    pub fn fallback_ask(&self) -> (r: String)
        ensures
            r@ == ask_head(self.label_view()) + painted(spec_dim(), self.default_note()) + ": "@,
    {
        let mut note = String::new();
        match &self.default {
            Some(d) => {
                note.append(" (default: ");
                note.append(d.as_str());
                note.append(")");
            },
            None => {},
        }
        proof {
            reveal_strlit(" (default: ");
            assert(note@ =~= self.default_note());
        }
        let mut out = ask_head_exec(self.label.as_str());
        let n = paint(dim(), note.as_str());
        out.append(n.as_str());
        out.append(": ");
        out
    }

    /// The answer to a fallback line the rule refused with `msg`.
    pub fn fallback_retry(&self, msg: &str) -> (r: String)
        ensures
            r@ == retry_text(msg@),
    {
        retry_exec(msg)
    }

    /// The answer a fallback line gives: the line, or the default (or
    /// nothing) for an empty line; then validated like Enter.
    pub fn fallback_answer(&self, line: &str) -> (r: Step<String>)
        ensures
            validated_step(
                self.rule_view(),
                if line@.len() == 0 {
                    match self.default_view() {
                        Some(d) => d,
                        None => Seq::<char>::empty(),
                    }
                } else {
                    line@
                },
                r,
            ),
    {
        let value = if line.is_empty() {
            match &self.default {
                Some(d) => d.clone(),
                None => String::new(),
            }
        } else {
            owned(line)
        };
        run_rule(&self.validate, value)
    }

    /// The placeholder shown when the buffer is empty: the placeholder, or
    /// else the default, or else nothing.
    pub open spec fn shown_placeholder(&self) -> Seq<char> {
        match self.placeholder_view() {
            Some(p) => p,
            None => match self.default_view() {
                Some(d) => d,
                None => Seq::empty(),
            },
        }
    }

    /// The rows of the live frame.
    pub open spec fn spec_render(&self, error: Option<Seq<char>>) -> Seq<Seq<char>> {
        let s = self.settings_view();
        let head = seq![spec_label_state(self.label_view(), error is Some, &s)];
        let hints = if s.show_hints && self.hint_view() is Some {
            seq![spec_hint(self.hint_view()->0, &s)]
        } else {
            Seq::<Seq<char>>::empty()
        };
        head + hints + seq![
            spec_input_bar(error is Some, &s) + "  "@ + LineBuf::spec_with_placeholder(
                self.content(),
                self.cursor(),
                self.shown_placeholder(),
                s.colors.input,
            ),
            spec_frame_bot(error, &s),
        ]
    }
}

impl Prompt for TextPrompt {
    type Output = String;

    open spec fn handle_ok(&self, key: Key) -> bool {
        self.wf()
    }

    open spec fn render_ok(&self) -> bool {
        self.wf()
    }

    /// Enter submits (after validation), characters are inserted at the
    /// cursor, the editing keys edit, Escape and Ctrl-C cancel.
    fn handle(&mut self, key: Key) -> (r: Step<String>)
        ensures
            final(self).wf(),
            TextPrompt::same_config(&*final(self), &*old(self)),
            key == Key::Enter ==> validated_step(old(self).rule_view(), old(self).submit_view(), r)
                && final(self).content() == old(self).content()
                && final(self).cursor() == old(self).cursor(),
            key matches Key::Char(c) ==> r is Continue && final(self).content() == inserted(
                old(self).content(),
                old(self).cursor() as int,
                c,
            ) && final(self).cursor() == old(self).cursor() + 1,
            key == Key::Backspace ==> r is Continue && (if old(self).cursor() == 0 {
                final(self).content() == old(self).content() && final(self).cursor() == 0
            } else {
                final(self).content() == removed(
                    old(self).content(),
                    old(self).cursor() - 1,
                    old(self).cursor() as int,
                ) && final(self).cursor() == old(self).cursor() - 1
            }),
            key == Key::Delete ==> r is Continue && final(self).cursor() == old(self).cursor() && (
            if old(self).cursor() >= old(self).content().len() {
                final(self).content() == old(self).content()
            } else {
                final(self).content() == removed(
                    old(self).content(),
                    old(self).cursor() as int,
                    old(self).cursor() + 1 as int,
                )
            }),
            key == Key::DeleteWordBack ==> r is Continue && ({
                let s = old(self).content();
                let start = skip_word_back(s, skip_space_back(s, old(self).cursor() as int));
                &&& final(self).cursor() == start
                &&& final(self).content() == removed(s, start, old(self).cursor() as int)
            }),
            key == Key::Left ==> r is Continue && final(self).content() == old(self).content()
                && final(self).cursor() == if old(self).cursor() == 0 {
                0
            } else {
                (old(self).cursor() - 1) as nat
            },
            key == Key::Right ==> r is Continue && final(self).content() == old(self).content()
                && final(self).cursor() == if old(self).cursor() >= old(self).content().len() {
                old(self).cursor()
            } else {
                old(self).cursor() + 1
            },
            key == Key::Home ==> r is Continue && final(self).content() == old(self).content()
                && final(self).cursor() == 0,
            key == Key::End ==> r is Continue && final(self).content() == old(self).content()
                && final(self).cursor() == old(self).content().len(),
            (key == Key::Escape || key == Key::Interrupt) ==> r is Cancel && final(self).content()
                == old(self).content() && final(self).cursor() == old(self).cursor(),
            (key == Key::Up || key == Key::Down || key == Key::PageUp || key == Key::PageDown || key
                == Key::Tab) ==> r is Continue && final(self).content() == old(self).content()
                && final(self).cursor() == old(self).cursor(),
    {
        match key {
            Key::Enter => {
                let value = self.submit_value();
                run_rule(&self.validate, value)
            },
            Key::Char(c) => {
                self.buf.insert(c);
                Step::Continue
            },
            Key::Backspace => {
                self.buf.backspace();
                Step::Continue
            },
            Key::Delete => {
                self.buf.delete();
                Step::Continue
            },
            Key::DeleteWordBack => {
                self.buf.delete_word_back();
                Step::Continue
            },
            Key::Left => {
                self.buf.left();
                Step::Continue
            },
            Key::Right => {
                self.buf.right();
                Step::Continue
            },
            Key::Home => {
                self.buf.home();
                Step::Continue
            },
            Key::End => {
                self.buf.end();
                Step::Continue
            },
            Key::Escape | Key::Interrupt => Step::Cancel,
            _ => Step::Continue,
        }
    }

    /// Label row, optional hint row, input row, bottom row.
    fn render(&self, ctx: RenderCtx) -> (r: Frame)
        ensures
            rows(r) == self.spec_render(ctx.error_view()),
    {
        let err = ctx.error;
        let s = &self.settings;
        let mut f: Frame = Vec::new();
        f.push(label_state(self.label.as_str(), err.is_some(), s));
        if s.show_hints {
            match &self.hint {
                Some(h) => f.push(hint(h.as_str(), s)),
                None => {},
            }
        }
        let placeholder: &str = match &self.placeholder {
            Some(p) => p.as_str(),
            None => match &self.default {
                Some(d) => d.as_str(),
                None => "",
            },
        };
        let mut line = input_bar(err.is_some(), s);
        line.append("  ");
        let shown = self.buf.with_placeholder(placeholder, s.colors.input);
        line.append(shown.as_str());
        f.push(line);
        f.push(frame_bot(err, s));
        proof {
            assert(""@.len() == 0) by {
                reveal_strlit("");
            }
            assert(rows(f) =~= self.spec_render(ctx.error_view()));
        }
        f
    }

    /// Question, answer, connector.
    fn render_answered(&self, value: &String) -> (r: Frame)
        ensures
            rows(r) == split_on(spec_answered(self.label_view(), value@, &self.settings_view()), crlf()),
    {
        answered_rows(self.label.as_str(), value.as_str(), &self.settings)
    }
}

} // verus!

verus! {

// ─────────────────────────────────────────────────────────────────────────────
// SecretPrompt
// ─────────────────────────────────────────────────────────────────────────────

/// The answer to a refused fallback line: the reason, then a new
/// question.
pub open spec fn retry_text(msg: Seq<char>) -> Seq<char> {
    "  ✘ "@ + msg + "\n  Try again: "@
}

fn retry_exec(msg: &str) -> (r: String)
    ensures
        r@ == retry_text(msg@),
{
    let mut out = owned("  ✘ ");
    proof {
        reveal_strlit("  ✘ ");
    }
    out.append(msg);
    out.append("\n  Try again: ");
    out
}

/// The start of every fallback question: an accented `◇` and the label.
pub open spec fn ask_head(label: Seq<char>) -> Seq<char> {
    painted(spec_accent(), "◇"@) + "  "@ + painted(spec_white(), label)
}

fn ask_head_exec(label: &str) -> (r: String)
    ensures
        r@ == ask_head(label@),
{
    let mut out = paint(accent(), "◇");
    out.append("  ");
    let l = paint(white(), label);
    out.append(l.as_str());
    out
}

/// The message for an empty fallback answer where one is not allowed.
pub open spec fn empty_value_msg() -> Seq<char> {
    "Value cannot be empty"@
}

/// Builder returned by [`secret()`].
pub struct SecretPrompt {
    label: String,
    allow_empty: bool,
    hint: Option<String>,
    validate: Option<Validator>,
    buf: Vec<char>,
    settings: Settings,
}

/// Ask the user for a masked line of text (passwords, API keys). Each
/// character is shown as `•`; the submitted value holds the real ones.
pub fn secret(label: &str) -> (r: SecretPrompt)
    ensures
        r.label_view() == label@,
        !r.allow_empty_view(),
        r.hint_view() == None::<Seq<char>>,
        r.rule_view() == None::<Validator>,
        r.content() == Seq::<char>::empty(),
        r.settings_view().is_default_flags(),
{
    SecretPrompt {
        label: owned(label),
        allow_empty: false,
        hint: None,
        validate: None,
        buf: Vec::new(),
        settings: Settings::default(),
    }
}

impl SecretPrompt {
    pub closed spec fn label_view(&self) -> Seq<char> {
        self.label@
    }

    pub closed spec fn allow_empty_view(&self) -> bool {
        self.allow_empty
    }

    pub closed spec fn hint_view(&self) -> Option<Seq<char>> {
        opt_seq(self.hint)
    }

    pub closed spec fn rule_view(&self) -> Option<Validator> {
        self.validate
    }

    pub closed spec fn content(&self) -> Seq<char> {
        self.buf@
    }

    pub closed spec fn settings_view(&self) -> Settings {
        self.settings
    }

    /// Everything but the typed characters is the same in `a` and `b`.
    pub open spec fn same_config(a: &SecretPrompt, b: &SecretPrompt) -> bool {
        &&& a.label_view() == b.label_view()
        &&& a.allow_empty_view() == b.allow_empty_view()
        &&& a.hint_view() == b.hint_view()
        &&& a.rule_view() == b.rule_view()
        &&& a.settings_view() == b.settings_view()
    }

    /// The question of the fallback: the label and a warning that the
    /// input shows.
    pub fn fallback_ask(&self) -> (r: String)
        ensures
            r@ == ask_head(self.label_view()) + " "@ + painted(spec_dim(), "(input will be visible)"@)
                + ": "@,
    {
        let mut out = ask_head_exec(self.label.as_str());
        out.append(" ");
        let n = paint(dim(), "(input will be visible)");
        out.append(n.as_str());
        out.append(": ");
        out
    }

    /// The answer to a refused fallback line: an empty line that is not
    /// allowed gets its own sentence, a line the rule refused with `msg`
    /// gets the reason.
    pub fn fallback_retry(&self, line: &str, msg: &str) -> (r: String)
        ensures
            r@ == if line@.len() == 0 && !self.allow_empty_view() {
                "  Value cannot be empty. Try again: "@
            } else {
                retry_text(msg@)
            },
    {
        if line.is_empty() && !self.allow_empty {
            owned("  Value cannot be empty. Try again: ")
        } else {
            retry_exec(msg)
        }
    }

    /// The answer a fallback line gives: refused as empty unless empty
    /// answers are allowed, else validated like Enter.
    pub fn fallback_answer(&self, line: &str) -> (r: Step<String>)
        ensures
            line@.len() == 0 && !self.allow_empty_view() ==> (r matches Step::Reject(m) && m@
                == empty_value_msg()),
            !(line@.len() == 0 && !self.allow_empty_view()) ==> validated_step(
                self.rule_view(),
                line@,
                r,
            ),
    {
        if line.is_empty() && !self.allow_empty {
            proof {
                reveal_strlit("Value cannot be empty");
            }
            return Step::Reject(owned("Value cannot be empty"));
        }
        run_rule(&self.validate, owned(line))
    }

    /// Allow submitting an empty value (default: `false`).
    pub fn allow_empty(self, v: bool) -> (r: SecretPrompt)
        ensures
            r.allow_empty_view() == v,
            r.label_view() == self.label_view(),
            r.hint_view() == self.hint_view(),
            r.rule_view() == self.rule_view(),
            r.content() == self.content(),
            r.settings_view() == self.settings_view(),
    {
        SecretPrompt { allow_empty: v, ..self }
    }

    /// One-line hint rendered under the label when the settings show hints.
    pub fn hint(self, v: &str) -> (r: SecretPrompt)
        ensures
            r.hint_view() == Some(v@),
            r.label_view() == self.label_view(),
            r.allow_empty_view() == self.allow_empty_view(),
            r.rule_view() == self.rule_view(),
            r.content() == self.content(),
            r.settings_view() == self.settings_view(),
    {
        SecretPrompt { hint: Some(owned(v)), ..self }
    }

    /// Validate with an ad-hoc closure.
    pub fn validate<F: Fn(&str) -> Result<(), String> + Send + Sync + 'static>(self, f: F) -> (r: SecretPrompt)
        ensures
            r.rule_view() matches Some(v) && forall|s: Seq<char>| #[trigger] v.verdict(s) == Verdict::Unknown,
            r.label_view() == self.label_view(),
            r.allow_empty_view() == self.allow_empty_view(),
            r.hint_view() == self.hint_view(),
            r.content() == self.content(),
            r.settings_view() == self.settings_view(),
    {
        SecretPrompt { validate: Some(Validator::new(f)), ..self }
    }

    /// Apply a composed [`Validator`] from the rules library.
    pub fn rule(self, v: Validator) -> (r: SecretPrompt)
        ensures
            r.rule_view() == Some(v),
            r.label_view() == self.label_view(),
            r.allow_empty_view() == self.allow_empty_view(),
            r.hint_view() == self.hint_view(),
            r.content() == self.content(),
            r.settings_view() == self.settings_view(),
    {
        SecretPrompt { validate: Some(v), ..self }
    }

    /// Deprecated alias for [`rule`](Self::rule).
    pub fn validate_with(self, v: Validator) -> (r: SecretPrompt)
        ensures
            r.rule_view() == Some(v),
            r.label_view() == self.label_view(),
            r.allow_empty_view() == self.allow_empty_view(),
            r.hint_view() == self.hint_view(),
            r.content() == self.content(),
            r.settings_view() == self.settings_view(),
    {
        self.rule(v)
    }

    /// Render and read key behaviour with `s` in place of the defaults.
    pub fn settings(self, s: Settings) -> (r: SecretPrompt)
        ensures
            r.settings_view() == s,
            r.label_view() == self.label_view(),
            r.allow_empty_view() == self.allow_empty_view(),
            r.hint_view() == self.hint_view(),
            r.rule_view() == self.rule_view(),
            r.content() == self.content(),
    {
        SecretPrompt { settings: s, ..self }
    }

    /// The rows of the live frame: the input shows one `•` per character,
    /// at most 32.
    pub open spec fn spec_render(&self, error: Option<Seq<char>>) -> Seq<Seq<char>> {
        let s = self.settings_view();
        let head = seq![spec_label_state(self.label_view(), error is Some, &s)];
        let hints = if s.show_hints && self.hint_view() is Some {
            seq![spec_hint(self.hint_view()->0, &s)]
        } else {
            Seq::<Seq<char>>::empty()
        };
        let n: nat = if self.content().len() <= 32 { self.content().len() } else { 32 };
        head + hints + seq![
            spec_input_bar(error is Some, &s) + "  "@ + painted(s.colors.input, fill('•', n)),
            spec_frame_bot(error, &s),
        ]
    }
}

impl Prompt for SecretPrompt {
    type Output = String;

    open spec fn handle_ok(&self, key: Key) -> bool {
        true
    }

    open spec fn render_ok(&self) -> bool {
        true
    }

    /// Enter submits (an empty value only when allowed, then validation),
    /// characters are appended, Backspace removes the last one, Escape and
    /// Ctrl-C cancel.
    fn handle(&mut self, key: Key) -> (r: Step<String>)
        ensures
            SecretPrompt::same_config(&*final(self), &*old(self)),
            key == Key::Enter ==> final(self).content() == old(self).content() && (if old(
                self,
            ).content().len() == 0 && !old(self).allow_empty_view() {
                r matches Step::Reject(m) && m@ == "Value is required"@
            } else {
                validated_step(old(self).rule_view(), old(self).content(), r)
            }),
            key matches Key::Char(c) ==> r is Continue && final(self).content() == old(
                self,
            ).content().push(c),
            key == Key::Backspace ==> r is Continue && final(self).content() == if old(
                self,
            ).content().len() == 0 {
                old(self).content()
            } else {
                old(self).content().drop_last()
            },
            (key == Key::Escape || key == Key::Interrupt) ==> r is Cancel && final(self).content()
                == old(self).content(),
            !(key == Key::Enter || key is Char || key == Key::Backspace || key == Key::Escape || key
                == Key::Interrupt) ==> r is Continue && final(self).content() == old(
                self,
            ).content(),
    {
        match key {
            Key::Enter => {
                if self.buf.len() == 0 && !self.allow_empty {
                    return Step::Reject(owned("Value is required"));
                }
                let value = string_of(&self.buf);
                run_rule(&self.validate, value)
            },
            Key::Char(c) => {
                self.buf.push(c);
                Step::Continue
            },
            Key::Backspace => {
                self.buf.pop();
                Step::Continue
            },
            Key::Escape | Key::Interrupt => Step::Cancel,
            _ => Step::Continue,
        }
    }

    /// Label row, optional hint row, masked input row, bottom row.
    fn render(&self, ctx: RenderCtx) -> (r: Frame)
        ensures
            rows(r) == self.spec_render(ctx.error_view()),
    {
        let err = ctx.error;
        let s = &self.settings;
        let mut f: Frame = Vec::new();
        f.push(label_state(self.label.as_str(), err.is_some(), s));
        if s.show_hints {
            match &self.hint {
                Some(h) => f.push(hint(h.as_str(), s)),
                None => {},
            }
        }
        let n: usize = if self.buf.len() <= 32 { self.buf.len() } else { 32 };
        let dots = crate::strutil::fill_string('•', n);
        let mut line = input_bar(err.is_some(), s);
        line.append("  ");
        let d = paint(s.colors.input, dots.as_str());
        line.append(d.as_str());
        f.push(line);
        f.push(frame_bot(err, s));
        proof {
            assert(rows(f) =~= self.spec_render(ctx.error_view()));
        }
        f
    }

    /// Question, a fixed mask of eight dots, connector.
    fn render_answered(&self, value: &String) -> (r: Frame)
        ensures
            rows(r) == split_on(spec_answered(self.label_view(), "••••••••"@, &self.settings_view()), crlf()),
    {
        answered_rows(self.label.as_str(), "••••••••", &self.settings)
    }
}

} // verus!

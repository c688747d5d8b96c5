//! Multi-line text input: Enter inserts a newline; Enter on an empty line,
//! or the focused `[ submit ]` button, submits.

use vstd::prelude::*;
use crate::strutil::{
    chars_of, joined, join, lines, lines_of, owned, push_char, split_on, string_of_range,
};
use crate::styles::{dim, paint, painted};
use super::base::{Frame, Key, Prompt, RenderCtx, Step, frame::rows};
use super::settings::Settings;
use super::text::{answered_rows, crlf, opt_seq, run_rule, validated_step};
use super::theme::{
    frame_bot, hint, label, spec_answered, spec_frame_bot, spec_hint, spec_label_state, BAR,
};
use super::validate::{Validate, Validator, Verdict};

verus! {

broadcast use vstd::string::group_string_axioms;

/// The value Enter submits, if it submits: with the button focused, all
/// lines; otherwise, when Enter is pressed on an empty line below another
/// line, the lines above it; joined with `\n`.
pub open spec fn submission(lines: Seq<Seq<char>>, focus_submit: bool) -> Option<Seq<char>> {
    let n = lines.len();
    let on_empty_line = n >= 2 && lines[n - 1].len() == 0;
    if focus_submit {
        Some(joined(lines, seq!['\n']))
    } else if on_empty_line {
        Some(joined(lines.take(n - 1), seq!['\n']))
    } else {
        None
    }
}

/// The key help under the input.
pub open spec fn multiline_help(show_submit: bool) -> Seq<char> {
    if show_submit {
        "Tab to focus submit · Enter to insert newline"@
    } else {
        "Enter for newline · Enter on empty line to submit"@
    }
}

/// The rows of the input area: the placeholder while nothing is typed,
/// otherwise one row per line.
pub open spec fn body_rows(lines: Seq<Seq<char>>, placeholder: Seq<char>, s: &Settings) -> Seq<Seq<char>> {
    let bar = painted(crate::styles::spec_dim(), BAR@) + "  "@;
    if lines.len() == 1 && lines[0].len() == 0 && placeholder.len() > 0 {
        seq![bar + painted(crate::styles::spec_dim(), placeholder)]
    } else {
        lines.map_values(|l: Seq<char>| bar + painted(s.colors.input, l))
    }
}

/// The `[ submit ]` row: accented when focused.
pub open spec fn submit_row(focus: bool, s: &Settings) -> Seq<char> {
    painted(crate::styles::spec_dim(), BAR@) + "  "@ + painted(
        if focus { s.colors.accent } else { s.colors.dim },
        "[ submit ]"@,
    )
}

/// The answered value: the first line, cut to 40 characters, with ` …`
/// when there are more lines.
pub open spec fn answered_snippet(v: Seq<char>) -> Seq<char> {
    let ls = lines_of(v);
    let first = if ls.len() > 0 { ls[0] } else { Seq::empty() };
    let cut = if first.len() <= 40 { first } else { first.take(40) };
    cut + if ls.len() > 1 { " …"@ } else { Seq::<char>::empty() }
}

/// The fallback's accumulated text after reading one more line: `None` on
/// an empty line (the input ends), otherwise the line appended, after a
/// `\n` when something came before.
pub open spec fn fallback_next(acc: Seq<char>, line: Seq<char>) -> Option<Seq<char>> {
    if line.len() == 0 {
        None
    } else if acc.len() == 0 {
        Some(line)
    } else {
        Some(acc.push('\n') + line)
    }
}

/// Builder returned by [`multiline()`].
pub struct MultilinePrompt {
    label: String,
    placeholder: Option<String>,
    show_submit: bool,
    validate: Option<Validator>,
    buf: Vec<String>,
    focus_submit: bool,
    settings: Settings,
}

/// Ask the user for multiple lines of text.
pub fn multiline(label: &str) -> (r: MultilinePrompt)
    ensures
        r.wf(),
        r.label_view() == label@,
        r.placeholder_view() == None::<Seq<char>>,
        !r.show_submit_view(),
        r.rule_view() == None::<Validator>,
        r.lines_view() == seq![Seq::<char>::empty()],
        !r.focus_submit(),
        r.settings_view().is_default_flags(),
{
    let mut buf: Vec<String> = Vec::new();
    buf.push(String::new());
    let r = MultilinePrompt {
        label: owned(label),
        placeholder: None,
        show_submit: false,
        validate: None,
        buf,
        focus_submit: false,
        settings: Settings::default(),
    };
    proof {
        assert(r.lines_view() =~= seq![Seq::<char>::empty()]);
    }
    r
}

impl MultilinePrompt {
    /// There is always at least one line.
    pub closed spec fn wf(&self) -> bool {
        self.buf@.len() >= 1
    }

    pub closed spec fn label_view(&self) -> Seq<char> {
        self.label@
    }

    pub closed spec fn placeholder_view(&self) -> Option<Seq<char>> {
        opt_seq(self.placeholder)
    }

    pub closed spec fn show_submit_view(&self) -> bool {
        self.show_submit
    }

    pub closed spec fn rule_view(&self) -> Option<Validator> {
        self.validate
    }

    /// The lines typed so far.
    pub closed spec fn lines_view(&self) -> Seq<Seq<char>> {
        self.buf@.map_values(|l: String| l@)
    }

    /// The `[ submit ]` button has the focus.
    pub closed spec fn focus_submit(&self) -> bool {
        self.focus_submit
    }

    pub closed spec fn settings_view(&self) -> Settings {
        self.settings
    }

    /// Everything but the lines and the focus is the same.
    pub open spec fn same_config(a: &MultilinePrompt, b: &MultilinePrompt) -> bool {
        &&& a.label_view() == b.label_view()
        &&& a.placeholder_view() == b.placeholder_view()
        &&& a.show_submit_view() == b.show_submit_view()
        &&& a.rule_view() == b.rule_view()
        &&& a.settings_view() == b.settings_view()
    }

    /// Dim text shown in the input area before the user types.
    pub fn placeholder(self, v: &str) -> (r: MultilinePrompt)
        ensures
            r.placeholder_view() == Some(v@),
            r.wf() == self.wf(),
            r.label_view() == self.label_view(),
            r.show_submit_view() == self.show_submit_view(),
            r.rule_view() == self.rule_view(),
            r.lines_view() == self.lines_view(),
            r.focus_submit() == self.focus_submit(),
            r.settings_view() == self.settings_view(),
    {
        MultilinePrompt { placeholder: Some(owned(v)), ..self }
    }

    /// Show a `[ submit ]` button focused with Tab (otherwise Enter on an
    /// empty line submits).
    pub fn show_submit(self, v: bool) -> (r: MultilinePrompt)
        ensures
            r.show_submit_view() == v,
            r.wf() == self.wf(),
            r.label_view() == self.label_view(),
            r.placeholder_view() == self.placeholder_view(),
            r.rule_view() == self.rule_view(),
            r.lines_view() == self.lines_view(),
            r.focus_submit() == self.focus_submit(),
            r.settings_view() == self.settings_view(),
    {
        MultilinePrompt { show_submit: v, ..self }
    }

    /// Validate with an ad-hoc closure.
    pub fn validate<F: Fn(&str) -> Result<(), String> + Send + Sync + 'static>(self, f: F) -> (r: MultilinePrompt)
        ensures
            r.rule_view() matches Some(v) && forall|s: Seq<char>| #[trigger] v.verdict(s) == Verdict::Unknown,
            r.wf() == self.wf(),
            r.label_view() == self.label_view(),
            r.placeholder_view() == self.placeholder_view(),
            r.show_submit_view() == self.show_submit_view(),
            r.lines_view() == self.lines_view(),
            r.focus_submit() == self.focus_submit(),
            r.settings_view() == self.settings_view(),
    {
        MultilinePrompt { validate: Some(Validator::new(f)), ..self }
    }

    /// Apply a composed [`Validator`] from the rules library.
    pub fn rule(self, v: Validator) -> (r: MultilinePrompt)
        ensures
            r.rule_view() == Some(v),
            r.wf() == self.wf(),
            r.label_view() == self.label_view(),
            r.placeholder_view() == self.placeholder_view(),
            r.show_submit_view() == self.show_submit_view(),
            r.lines_view() == self.lines_view(),
            r.focus_submit() == self.focus_submit(),
            r.settings_view() == self.settings_view(),
    {
        MultilinePrompt { validate: Some(v), ..self }
    }

    /// Alias for [`rule`](Self::rule).
    pub fn validate_with(self, v: Validator) -> (r: MultilinePrompt)
        ensures
            r.rule_view() == Some(v),
            r.wf() == self.wf(),
            r.label_view() == self.label_view(),
            r.placeholder_view() == self.placeholder_view(),
            r.show_submit_view() == self.show_submit_view(),
            r.lines_view() == self.lines_view(),
            r.focus_submit() == self.focus_submit(),
            r.settings_view() == self.settings_view(),
    {
        self.rule(v)
    }

    /// Render and read key behaviour with `s` in place of the defaults.
    pub fn settings(self, s: Settings) -> (r: MultilinePrompt)
        ensures
            r.settings_view() == s,
            r.wf() == self.wf(),
            r.label_view() == self.label_view(),
            r.placeholder_view() == self.placeholder_view(),
            r.show_submit_view() == self.show_submit_view(),
            r.rule_view() == self.rule_view(),
            r.lines_view() == self.lines_view(),
            r.focus_submit() == self.focus_submit(),
    {
        MultilinePrompt { settings: s, ..self }
    }

    /// The value Enter would submit now, if any (see [`submission`]).
    pub fn try_submit(&self) -> (r: Option<String>)
        requires
            self.wf(),
        ensures
            match submission(self.lines_view(), self.focus_submit()) {
                Some(v) => r matches Some(x) && x@ == v,
                None => r is None,
            },
    {
        let n = self.buf.len();
        let on_empty_line = n >= 2 && self.buf[n - 1].as_str().is_empty();
        if !(self.focus_submit || on_empty_line) {
            return None;
        }
        let mut nl = String::new();
        push_char(&mut nl, '\n');
        proof {
            assert(nl@ =~= seq!['\n']);
        }
        if self.focus_submit {
            Some(join(&self.buf, nl.as_str()))
        } else {
            let mut head: Vec<String> = Vec::new();
            let mut i: usize = 0;
            while i < n - 1
                invariant
                    n == self.buf@.len(),
                    n >= 2,
                    0 <= i <= n - 1,
                    head@.map_values(|x: String| x@) == self.lines_view().take(i as int),
                decreases n - 1 - i,
            {
                let l = self.buf[i].clone();
                let ghost prev = head@;
                let ghost lv = l@;
                head.push(l);
                proof {
                    assert(lv == self.lines_view()[i as int]);
                    assert(head@.map_values(|x: String| x@) =~= prev.map_values(|x: String| x@).push(lv));
                    assert(head@.map_values(|x: String| x@) =~= self.lines_view().take(i + 1));
                }
                i += 1;
            }
            Some(join(&head, nl.as_str()))
        }
    }

    /// The row the fallback prints before reading lines.
    pub fn fallback_intro(&self) -> (r: String)
        ensures
            r@ == "  "@ + self.label_view() + " (end with empty line)"@,
    {
        let mut out = owned("  ");
        proof {
            reveal_strlit("  ");
        }
        out.append(self.label.as_str());
        out.append(" (end with empty line)");
        out
    }

    /// The fallback's text after one more line was read (see
    /// [`fallback_next`]).
    pub fn fallback_line(acc: &str, line: &str) -> (r: Option<String>)
        ensures
            match fallback_next(acc@, line@) {
                Some(v) => r matches Some(x) && x@ == v,
                None => r is None,
            },
    {
        if line.is_empty() {
            return None;
        }
        let mut out = owned(acc);
        if !acc.is_empty() {
            push_char(&mut out, '\n');
        }
        out.append(line);
        Some(out)
    }

    /// The rows of the live frame.
    pub open spec fn spec_render(&self) -> Seq<Seq<char>> {
        let s = self.settings_view();
        let ph = match self.placeholder_view() {
            Some(p) => p,
            None => Seq::empty(),
        };
        seq![spec_label_state(self.label_view(), false, &s)] + body_rows(self.lines_view(), ph, &s)
            + (if self.show_submit_view() {
            seq![submit_row(self.focus_submit(), &s)]
        } else {
            Seq::<Seq<char>>::empty()
        }) + seq![spec_hint(multiline_help(self.show_submit_view()), &s), spec_frame_bot(None, &s)]
    }
}

impl Prompt for MultilinePrompt {
    type Output = String;

    open spec fn handle_ok(&self, key: Key) -> bool {
        self.wf()
    }

    open spec fn render_ok(&self) -> bool {
        true
    }

    /// Tab (with the button shown) moves the focus to or from the
    /// button; a character leaves the button and extends the last line;
    /// Backspace deletes the last character, or the empty last line;
    /// Enter submits (after validation) when [`submission`] gives a value,
    /// else starts a new line; Escape and Ctrl-C cancel.
    fn handle(&mut self, key: Key) -> (r: Step<String>)
        ensures
            final(self).wf(),
            MultilinePrompt::same_config(&*final(self), &*old(self)),
            ({
                let ls = old(self).lines_view();
                let n = ls.len();
                let focus = old(self).focus_submit();
                if key == Key::Char('\t') && old(self).show_submit_view() {
                    r is Continue && final(self).lines_view() == ls && final(self).focus_submit()
                        == !focus
                } else {
                    match key {
                        Key::Char(c) => r is Continue && !final(self).focus_submit()
                            && final(self).lines_view() == ls.update(n - 1, ls[n - 1].push(c)),
                        Key::Backspace => r is Continue && final(self).focus_submit() == focus
                            && final(self).lines_view() == if ls[n - 1].len() > 0 {
                            ls.update(n - 1, ls[n - 1].drop_last())
                        } else if n > 1 {
                            ls.drop_last()
                        } else {
                            ls
                        },
                        Key::Enter => final(self).focus_submit() == focus && match submission(
                            ls,
                            focus,
                        ) {
                            Some(v) => final(self).lines_view() == ls && validated_step(
                                old(self).rule_view(),
                                v,
                                r,
                            ),
                            None => r is Continue && final(self).lines_view() == ls.push(
                                Seq::empty(),
                            ),
                        },
                        Key::Escape | Key::Interrupt => r is Cancel && final(self).lines_view() == ls
                            && final(self).focus_submit() == focus,
                        _ => r is Continue && final(self).lines_view() == ls
                            && final(self).focus_submit() == focus,
                    }
                }
            }),
    {
        if key == Key::Char('\t') && self.show_submit {
            self.focus_submit = !self.focus_submit;
            return Step::Continue;
        }
        match key {
            Key::Char(c) => {
                self.focus_submit = false;
                let ghost ls = self.lines_view();
                let mut last = self.buf.pop().unwrap();
                push_char(&mut last, c);
                self.buf.push(last);
                proof {
                    assert(self.lines_view() =~= ls.update(ls.len() - 1, ls[ls.len() - 1].push(c)));
                }
                Step::Continue
            },
            Key::Backspace => {
                let ghost ls = self.lines_view();
                let last = self.buf.pop().unwrap();
                let v = chars_of(last.as_str());
                if v.len() > 0 {
                    let shorter = string_of_range(&v, 0, v.len() - 1);
                    self.buf.push(shorter);
                    proof {
                        assert(self.lines_view() =~= ls.update(
                            ls.len() - 1,
                            ls[ls.len() - 1].drop_last(),
                        ));
                    }
                } else if self.buf.len() == 0 {
                    self.buf.push(last);
                    proof {
                        assert(self.lines_view() =~= ls);
                    }
                } else {
                    proof {
                        assert(self.lines_view() =~= ls.drop_last());
                    }
                }
                Step::Continue
            },
            Key::Enter => {
                match self.try_submit() {
                    Some(value) => run_rule(&self.validate, value),
                    None => {
                        let ghost ls = self.lines_view();
                        self.buf.push(String::new());
                        proof {
                            assert(self.lines_view() =~= ls.push(Seq::empty()));
                        }
                        Step::Continue
                    },
                }
            },
            Key::Escape | Key::Interrupt => Step::Cancel,
            _ => Step::Continue,
        }
    }

    /// Label, the lines (or the placeholder), the `[ submit ]` button
    /// when shown, key help, bottom row.
    fn render(&self, _ctx: RenderCtx) -> (r: Frame)
        ensures
            rows(r) == self.spec_render(),
    {
        let s = &self.settings;
        let mut f: Frame = Vec::new();
        f.push(label(self.label.as_str(), s));
        let empty = "";
        proof {
            reveal_strlit("");
        }
        let placeholder: &str = match &self.placeholder {
            Some(p) => p.as_str(),
            None => empty,
        };
        let ghost head = rows(f);
        assert(head =~= seq![spec_label_state(self.label_view(), false, s)]);
        let ghost ls = self.lines_view();
        let is_empty = self.buf.len() == 1 && self.buf[0].as_str().is_empty();
        if is_empty && !placeholder.is_empty() {
            let mut row = paint(dim(), BAR);
            row.append("  ");
            let p = paint(dim(), placeholder);
            row.append(p.as_str());
            f.push(row);
        } else {
            let mut i: usize = 0;
            while i < self.buf.len()
                invariant
                    ls == self.lines_view(),
                    *s == self.settings_view(),
                    0 <= i <= self.buf@.len(),
                    head == seq![spec_label_state(self.label_view(), false, s)],
                    rows(f) == head + ls.take(i as int).map_values(
                        |l: Seq<char>| painted(crate::styles::spec_dim(), BAR@) + "  "@ + painted(
                            s.colors.input,
                            l,
                        ),
                    ),
                decreases self.buf@.len() - i,
            {
                let mut row = paint(dim(), BAR);
                row.append("  ");
                let t = paint(s.colors.input, self.buf[i].as_str());
                row.append(t.as_str());
                let ghost prev = f@;
                f.push(row);
                proof {
                    assert(rows(f) =~= prev.map_values(|x: String| x@).push(row@));
                    assert(ls.take(i + 1) =~= ls.take(i as int).push(ls[i as int]));
                }
                i += 1;
            }
            proof {
                assert(ls.take(ls.len() as int) =~= ls);
            }
        }
        if self.show_submit {
            let style = if self.focus_submit { s.colors.accent } else { s.colors.dim };
            let mut row = paint(dim(), BAR);
            row.append("  ");
            let b = "[ submit ]";
            let t = paint(style, b);
            row.append(t.as_str());
            f.push(row);
        }
        let help = if self.show_submit {
            "Tab to focus submit · Enter to insert newline"
        } else {
            "Enter for newline · Enter on empty line to submit"
        };
        f.push(hint(help, s));
        f.push(frame_bot(None, s));
        proof {
            assert(rows(f) =~= self.spec_render());
        }
        f
    }

    /// Question, the first line (cut to 40 characters, with ` …` when
    /// there are more), connector.
    fn render_answered(&self, value: &String) -> (r: Frame)
        ensures
            rows(r) == split_on(
                spec_answered(self.label_view(), answered_snippet(value@), &self.settings_view()),
                crlf(),
            ),
    {
        let ls = lines(value.as_str());
        let first: Vec<char> = if ls.len() > 0 {
            chars_of(ls[0].as_str())
        } else {
            Vec::new()
        };
        let cut = if first.len() <= 40 { first.len() } else { 40 };
        let mut snippet = string_of_range(&first, 0, cut);
        if ls.len() > 1 {
            let more = " …";
            proof {
                reveal_strlit(" …");
            }
            snippet.append(more);
        }
        proof {
            if first@.len() <= 40 {
                assert(first@.subrange(0, cut as int) =~= first@);
            } else {
                assert(first@.subrange(0, cut as int) =~= first@.take(40));
            }
            if ls@.len() > 0 {
                assert(ls@[0]@ == lines_of(value@)[0]);
            }
            assert(snippet@ =~= answered_snippet(value@));
        }
        answered_rows(self.label.as_str(), snippet.as_str(), &self.settings)
    }
}

} // verus!

//! Pick one option with a single keypress, no Enter required.

use vstd::prelude::*;
use crate::strutil::{chars_of, owned, push_char, split_on};
use crate::styles::{paint, painted, white};
use super::base::{Frame, Key, Prompt, RenderCtx, Step, frame::rows};
use super::select::empty_str;
use super::settings::Settings;
use super::text::{answered_rows, crlf, opt_seq};
use super::theme::{
    frame_bot, hint, hint_inline, label, spec_answered, spec_frame_bot, spec_hint, spec_hint_inline,
    spec_label_state, BAR,
};

verus! {

broadcast use vstd::string::group_string_axioms;

struct KeyOption {
    key: char,
    label: String,
    hint: Option<String>,
}

/// An option as (key, label, hint).
pub type KeyOptionView = (char, Seq<char>, Option<Seq<char>>);

spec fn key_view(o: KeyOption) -> KeyOptionView {
    (o.key, o.label@, opt_seq(o.hint))
}

/// ASCII lowercase of one character; other characters are unchanged.
pub open spec fn ascii_lower(c: char) -> char {
    if 'A' <= c && c <= 'Z' {
        ((c as u32) + 32) as char
    } else {
        c
    }
}

/// The pressed character selects the option's key: exactly, or up to
/// ASCII case when matching ignores case.
pub open spec fn key_hits(k: char, c: char, case_sensitive: bool) -> bool {
    if case_sensitive {
        k == c
    } else {
        ascii_lower(k) == ascii_lower(c)
    }
}

/// Index of the first option at or after `i` whose key the character
/// selects.
pub open spec fn first_hit(opts: Seq<KeyOptionView>, c: char, cs: bool, i: int) -> Option<int>
    decreases opts.len() - i,
{
    if i < 0 || i >= opts.len() {
        None
    } else if key_hits(opts[i].0, c, cs) {
        Some(i)
    } else {
        first_hit(opts, c, cs, i + 1)
    }
}

proof fn lemma_first_hit(opts: Seq<KeyOptionView>, c: char, cs: bool, i: int)
    requires
        0 <= i,
    ensures
        first_hit(opts, c, cs, i) matches Some(k) ==> i <= k < opts.len(),
    decreases opts.len() - i,
{
    if i < opts.len() && !key_hits(opts[i].0, c, cs) {
        lemma_first_hit(opts, c, cs, i + 1);
    }
}

/// `char::eq_ignore_ascii_case`, or plain equality when case matters.
pub fn same_key(k: char, c: char, case_sensitive: bool) -> (r: bool)
    ensures
        r == key_hits(k, c, case_sensitive),
{
    if case_sensitive {
        k == c
    } else {
        let a = if 'A' <= k && k <= 'Z' {
            let u: u32 = (k as u32) + 32;
            (u as u8) as char
        } else {
            k
        };
        let b = if 'A' <= c && c <= 'Z' {
            let u: u32 = (c as u32) + 32;
            (u as u8) as char
        } else {
            c
        };
        a == b
    }
}

/// Returned by [`select_key`]: the character pressed and the option's label.
#[derive(Debug, Clone)]
pub struct KeySelected {
    /// The character the user pressed (matches one of the option keys).
    pub key: char,
    /// Human-readable label of the chosen option.
    pub label: String,
}

/// Builder returned by [`select_key()`].
pub struct SelectKeyPrompt {
    label: String,
    options: Vec<KeyOption>,
    case_sensitive: bool,
    settings: Settings,
}

/// Pick one option by a single keypress.
pub fn select_key(label: &str) -> (r: SelectKeyPrompt)
    ensures
        r.label_view() == label@,
        r.options_view() == Seq::<KeyOptionView>::empty(),
        !r.case_sensitive_view(),
        r.settings_view().is_default_flags(),
{
    SelectKeyPrompt {
        label: owned(label),
        options: Vec::new(),
        case_sensitive: false,
        settings: Settings::default(),
    }
}

/// The key help under the options.
pub open spec fn press_help() -> Seq<char> {
    "press the highlighted key"@
}

/// One option row: the key as a badge, the label, the hint.
pub open spec fn key_row(o: KeyOptionView, s: &Settings) -> Seq<char> {
    painted(s.colors.active, BAR@) + "  "@ + painted(s.colors.accent, seq![' ', o.0, ' ']) + " "@
        + painted(crate::styles::spec_white(), o.1) + spec_hint_inline(o.2, s)
}

impl SelectKeyPrompt {
    pub closed spec fn label_view(&self) -> Seq<char> {
        self.label@
    }

    pub closed spec fn options_view(&self) -> Seq<KeyOptionView> {
        self.options@.map_values(|o: KeyOption| key_view(o))
    }

    pub closed spec fn case_sensitive_view(&self) -> bool {
        self.case_sensitive
    }

    pub closed spec fn settings_view(&self) -> Settings {
        self.settings
    }

    /// Append an option bound to `key`.
    pub fn option(self, key: char, label: &str) -> (r: SelectKeyPrompt)
        ensures
            r.options_view() == self.options_view().push((key, label@, None::<Seq<char>>)),
            r.label_view() == self.label_view(),
            r.case_sensitive_view() == self.case_sensitive_view(),
            r.settings_view() == self.settings_view(),
    {
        let mut s = self;
        s.options.push(KeyOption { key, label: owned(label), hint: None });
        proof {
            assert(s.options@.map_values(|o: KeyOption| key_view(o)) =~= self.options_view().push(
                (key, label@, None::<Seq<char>>),
            ));
        }
        s
    }

    /// Attach a hint to the most recently added option, if any.
    pub fn hint(self, text: &str) -> (r: SelectKeyPrompt)
        ensures
            self.options_view().len() == 0 ==> r.options_view() == self.options_view(),
            self.options_view().len() > 0 ==> r.options_view() == self.options_view().update(
                self.options_view().len() - 1,
                (self.options_view().last().0, self.options_view().last().1, Some(text@)),
            ),
            r.label_view() == self.label_view(),
            r.case_sensitive_view() == self.case_sensitive_view(),
            r.settings_view() == self.settings_view(),
    {
        let mut s = self;
        if s.options.len() > 0 {
            let last = s.options.pop().unwrap();
            s.options.push(KeyOption { key: last.key, label: last.label, hint: Some(owned(text)) });
            proof {
                assert(s.options@.map_values(|o: KeyOption| key_view(o)) =~= self.options_view().update(
                    self.options_view().len() - 1,
                    (self.options_view().last().0, self.options_view().last().1, Some(text@)),
                ));
            }
        }
        s
    }

    /// Require an exact match of the key's case (by default `Y` also
    /// selects `y`).
    pub fn case_sensitive(self, v: bool) -> (r: SelectKeyPrompt)
        ensures
            r.case_sensitive_view() == v,
            r.options_view() == self.options_view(),
            r.label_view() == self.label_view(),
            r.settings_view() == self.settings_view(),
    {
        SelectKeyPrompt { case_sensitive: v, ..self }
    }

    /// Render and read key behaviour with `s` in place of the defaults.
    pub fn settings(self, s: Settings) -> (r: SelectKeyPrompt)
        ensures
            r.settings_view() == s,
            r.options_view() == self.options_view(),
            r.label_view() == self.label_view(),
            r.case_sensitive_view() == self.case_sensitive_view(),
    {
        SelectKeyPrompt { settings: s, ..self }
    }

    /// The first option that the character `c` selects, as (`c`, label).
    pub fn find(&self, c: char) -> (r: Option<KeySelected>)
        ensures
            match first_hit(self.options_view(), c, self.case_sensitive_view(), 0) {
                Some(k) => r matches Some(sel) && sel.key == c
                    && sel.label@ == self.options_view()[k].1,
                None => r is None,
            },
    {
        let ghost opts = self.options_view();
        let mut i: usize = 0;
        while i < self.options.len()
            invariant
                opts == self.options_view(),
                0 <= i <= self.options@.len(),
                first_hit(opts, c, self.case_sensitive_view(), 0) == first_hit(
                    opts,
                    c,
                    self.case_sensitive_view(),
                    i as int,
                ),
            decreases self.options@.len() - i,
        {
            let o = &self.options[i];
            proof {
                assert(key_view(self.options@[i as int]) == opts[i as int]);
            }
            if same_key(o.key, c, self.case_sensitive) {
                return Some(KeySelected { key: c, label: o.label.clone() });
            }
            i += 1;
        }
        None
    }

    /// The number of options.
    pub fn option_count(&self) -> (r: usize)
        ensures
            r == self.options_view().len(),
    {
        self.options.len()
    }

    /// The rows a fallback prints before reading: the label, then each
    /// option as `  [k] label`.
    pub fn fallback_rows(&self) -> (r: Vec<String>)
        ensures
            r@.map_values(|x: String| x@) == seq!["  "@ + self.label_view()] + self.options_view().map_values(
                |o: KeyOptionView| "  ["@ + seq![o.0] + "] "@ + o.1,
            ),
    {
        let mut out: Vec<String> = Vec::new();
        let mut head = owned("  ");
        proof {
            reveal_strlit("  ");
            reveal_strlit("  [");
            reveal_strlit("] ");
        }
        head.append(self.label.as_str());
        out.push(head);
        let ghost ov = self.options_view();
        let mut i: usize = 0;
        while i < self.options.len()
            invariant
                ov == self.options_view(),
                ov.len() == self.options@.len(),
                0 <= i <= ov.len(),
                out@.map_values(|x: String| x@) == seq!["  "@ + self.label_view()] + ov.take(i as int).map_values(
                    |o: KeyOptionView| "  ["@ + seq![o.0] + "] "@ + o.1,
                ),
            decreases ov.len() - i,
        {
            let o = &self.options[i];
            let mut row = owned("  [");
            push_char(&mut row, o.key);
            row.append("] ");
            row.append(o.label.as_str());
            proof {
                assert(key_view(self.options@[i as int]) == ov[i as int]);
                assert(row@ =~= "  ["@ + seq![o.key] + "] "@ + o.label@);
            }
            let ghost prev = out@.map_values(|x: String| x@);
            out.push(row);
            proof {
                assert(out@.map_values(|x: String| x@) =~= prev.push(row@));
                assert(ov.take(i + 1) =~= ov.take(i as int).push(ov[i as int]));
                assert(out@.map_values(|x: String| x@) =~= seq!["  "@ + self.label_view()] + ov.take(i + 1).map_values(
                    |o: KeyOptionView| "  ["@ + seq![o.0] + "] "@ + o.1,
                ));
            }
            i += 1;
        }
        proof {
            assert(ov.take(ov.len() as int) =~= ov);
        }
        out
    }

    /// The question of the fallback.
    pub fn fallback_ask(&self) -> (r: String)
        ensures
            r@ == "  Press a key (and Enter): "@,
    {
        owned("  Press a key (and Enter): ")
    }

    /// The option picked by the first character of a fallback line, if
    /// the line has one and it selects an option.
    pub fn pick_line(&self, line: &str) -> (r: Option<KeySelected>)
        ensures
            line@.len() == 0 ==> r is None,
            line@.len() > 0 ==> match first_hit(
                self.options_view(),
                line@[0],
                self.case_sensitive_view(),
                0,
            ) {
                Some(k) => r matches Some(sel) && sel.key == line@[0]
                    && sel.label@ == self.options_view()[k].1,
                None => r is None,
            },
    {
        let v = chars_of(line);
        if v.len() == 0 {
            None
        } else {
            self.find(v[0])
        }
    }

    /// The rows of the live frame.
    pub open spec fn spec_render(&self) -> Seq<Seq<char>> {
        let s = self.settings_view();
        seq![spec_label_state(self.label_view(), false, &s), spec_hint(Seq::empty(), &s)]
            + self.options_view().map_values(|o: KeyOptionView| key_row(o, &s)) + seq![
            spec_hint(press_help(), &s),
            spec_frame_bot(None, &s),
        ]
    }
}

fn key_row_exec(o: &KeyOption, s: &Settings) -> (r: String)
    ensures
        r@ == key_row(key_view(*o), s),
{
    let mut badge_text = String::new();
    push_char(&mut badge_text, ' ');
    push_char(&mut badge_text, o.key);
    push_char(&mut badge_text, ' ');
    proof {
        assert(badge_text@ =~= seq![' ', o.key, ' ']);
    }
    let badge = paint(s.colors.accent, badge_text.as_str());
    let l = paint(white(), o.label.as_str());
    let h: Option<&str> = match &o.hint {
        Some(x) => Some(x.as_str()),
        None => None,
    };
    proof {
        assert(super::theme::opt_view(h) == opt_seq(o.hint));
    }
    let sfx = hint_inline(h, s);
    let mut out = paint(s.colors.active, BAR);
    out.append("  ");
    out.append(badge.as_str());
    out.append(" ");
    out.append(l.as_str());
    out.append(sfx.as_str());
    out
}

impl Prompt for SelectKeyPrompt {
    type Output = KeySelected;

    open spec fn handle_ok(&self, key: Key) -> bool {
        true
    }

    open spec fn render_ok(&self) -> bool {
        true
    }

    /// A character that selects an option's key submits that option (the
    /// first one, if several match); Escape and Ctrl-C cancel; anything
    /// else is ignored.
    fn handle(&mut self, key: Key) -> (r: Step<KeySelected>)
        ensures
            *final(self) == *old(self),
            match key {
                Key::Char(c) => match first_hit(
                    old(self).options_view(),
                    c,
                    old(self).case_sensitive_view(),
                    0,
                ) {
                    Some(k) => r matches Step::Submit(sel) && sel.key == c
                        && sel.label@ == old(self).options_view()[k].1,
                    None => r is Continue,
                },
                Key::Escape | Key::Interrupt => r is Cancel,
                _ => r is Continue,
            },
    {
        match key {
            Key::Char(c) => match self.find(c) {
                Some(sel) => Step::Submit(sel),
                None => Step::Continue,
            },
            Key::Escape | Key::Interrupt => Step::Cancel,
            _ => Step::Continue,
        }
    }

    /// Label, spacer, one row per option, key help, bottom row.
    fn render(&self, _ctx: RenderCtx) -> (r: Frame)
        ensures
            rows(r) == self.spec_render(),
    {
        let s = &self.settings;
        let mut f: Frame = Vec::new();
        f.push(label(self.label.as_str(), s));
        f.push(hint(empty_str(), s));
        let ghost head = rows(f);
        let ghost opts = self.options_view();
        let mut i: usize = 0;
        while i < self.options.len()
            invariant
                opts == self.options_view(),
                *s == self.settings_view(),
                0 <= i <= self.options@.len(),
                head == seq![spec_label_state(self.label_view(), false, s), spec_hint(Seq::empty(), s)],
                rows(f) == head + opts.take(i as int).map_values(|o: KeyOptionView| key_row(o, s)),
            decreases self.options@.len() - i,
        {
            proof {
                assert(key_view(self.options@[i as int]) == opts[i as int]);
            }
            let row = key_row_exec(&self.options[i], s);
            let ghost prev = f@;
            f.push(row);
            proof {
                assert(rows(f) =~= prev.map_values(|x: String| x@).push(row@));
                assert(opts.take(i + 1).map_values(|o: KeyOptionView| key_row(o, s)) =~= opts.take(
                    i as int,
                ).map_values(|o: KeyOptionView| key_row(o, s)).push(row@));
            }
            i += 1;
        }
        let help = "press the highlighted key";
        proof {
            reveal_strlit("press the highlighted key");
            assert(opts.take(opts.len() as int) =~= opts);
        }
        f.push(hint(help, s));
        f.push(frame_bot(None, s));
        proof {
            assert(rows(f) =~= self.spec_render());
        }
        f
    }

    /// Question, the chosen label, connector.
    fn render_answered(&self, value: &KeySelected) -> (r: Frame)
        ensures
            rows(r) == split_on(
                spec_answered(self.label_view(), value.label@, &self.settings_view()),
                crlf(),
            ),
    {
        answered_rows(self.label.as_str(), value.label.as_str(), &self.settings)
    }
}

} // verus!

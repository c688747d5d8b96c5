//! Single-choice select.

use vstd::prelude::*;
use crate::strutil::{decimal, fmt_usize, owned, parse_usize, parsed_usize, split_on};
use super::base::{Frame, Key, Prompt, RenderCtx, Step, frame::rows};
use super::limit_options::{limit_options, viewport_of};
use super::settings::Settings;
use super::text::{answered_rows, crlf, opt_seq};
use super::theme::{
    cursor, frame_bot, hint, label, spec_answered, spec_cursor, spec_frame_bot, spec_hint,
    spec_label_state,
};

verus! {

broadcast use vstd::string::group_string_axioms;

pub struct SelectOption {
    value: String,
    label: String,
    hint: Option<String>,
}

/// An option as (value, label, hint).
pub type OptionView = (Seq<char>, Seq<char>, Option<Seq<char>>);

pub closed spec fn option_view(o: SelectOption) -> OptionView {
    (o.value@, o.label@, opt_seq(o.hint))
}

/// Returned by [`select`] — the chosen option's index, value and label.
#[derive(Debug, Clone)]
pub struct Selected {
    /// Zero-based position of the chosen option in the order it was added.
    pub index: usize,
    /// The option's machine value.
    pub value: String,
    /// The option's human label.
    pub label: String,
}

impl Selected {
    /// Position of the chosen option (zero-based).
    pub fn index(&self) -> (r: usize)
        ensures
            r == self.index,
    {
        self.index
    }

    /// The chosen option's machine value.
    pub fn value(&self) -> (r: &str)
        ensures
            r@ == self.value@,
    {
        self.value.as_str()
    }

    /// The chosen option's human label.
    pub fn label(&self) -> (r: &str)
        ensures
            r@ == self.label@,
    {
        self.label.as_str()
    }
}

/// Builder returned by [`select()`].
pub struct SelectPrompt {
    label: String,
    options: Vec<SelectOption>,
    prompt_hint: Option<String>,
    max_items: usize,
    pos: usize,
    settings: Settings,
}

/// Ask the user to pick one option from a list.
pub fn select(label: &str) -> (r: SelectPrompt)
    ensures
        r.label_view() == label@,
        r.options_view() == Seq::<OptionView>::empty(),
        r.prompt_hint_view() == None::<Seq<char>>,
        r.max_items_view() == 10,
        r.pos() == 0,
        r.settings_view().is_default_flags(),
{
    SelectPrompt {
        label: owned(label),
        options: Vec::new(),
        prompt_hint: None,
        max_items: 10,
        pos: 0,
        settings: Settings::default(),
    }
}

/// The text `↑ N more` / `↓ N more`.
pub open spec fn more_text(arrow: Seq<char>, n: nat) -> Seq<char> {
    arrow + " "@ + decimal(n) + " more"@
}

pub(crate) fn more(arrow: &str, n: usize) -> (r: String)
    ensures
        r@ == more_text(arrow@, n as nat),
{
    let mut s = owned(arrow);
    s.append(" ");
    let d = fmt_usize(n);
    s.append(d.as_str());
    s.append(" more");
    s
}

/// A row of a fallback listing: `  N. label`, then ` (hint)` when there
/// is one.
pub open spec fn numbered_row(n: nat, label: Seq<char>, hint: Option<Seq<char>>) -> Seq<char> {
    "  "@ + decimal(n) + ". "@ + label + match hint {
        Some(h) => " ("@ + h + ")"@,
        None => Seq::<char>::empty(),
    }
}

pub(crate) fn numbered_row_exec(n: usize, label: &str, hint: &Option<String>) -> (r: String)
    ensures
        r@ == numbered_row(n as nat, label@, opt_seq(*hint)),
{
    let mut out = owned("  ");
    proof {
        reveal_strlit("  ");
    }
    let d = fmt_usize(n);
    out.append(d.as_str());
    out.append(". ");
    out.append(label);
    match hint {
        Some(h) => {
            out.append(" (");
            out.append(h.as_str());
            out.append(")");
        },
        None => {},
    }
    out
}

/// The question of a numbered fallback: `  Enter number (1–N): `.
pub open spec fn ask_number_text(n: nat) -> Seq<char> {
    "  Enter number (1–"@ + decimal(n) + "): "@
}

pub(crate) fn ask_number(n: usize) -> (r: String)
    ensures
        r@ == ask_number_text(n as nat),
{
    let mut out = owned("  Enter number (1–");
    proof {
        reveal_strlit("  Enter number (1–");
    }
    let d = fmt_usize(n);
    out.append(d.as_str());
    out.append("): ");
    out
}

/// The answer to a number out of range or unreadable:
/// `  Please enter a number between 1 and N.`
pub open spec fn retry_number_text(n: nat) -> Seq<char> {
    "  Please enter a number between 1 and "@ + decimal(n) + "."@
}

pub(crate) fn retry_number(n: usize) -> (r: String)
    ensures
        r@ == retry_number_text(n as nat),
{
    let mut out = owned("  Please enter a number between 1 and ");
    proof {
        reveal_strlit("  Please enter a number between 1 and ");
    }
    let d = fmt_usize(n);
    out.append(d.as_str());
    out.append(".");
    out
}

/// The rows a numbered fallback prints: the label, then each item as a
/// numbered row (from 1).
pub open spec fn numbered_listing(label: Seq<char>, items: Seq<(Seq<char>, Option<Seq<char>>)>) -> Seq<Seq<char>> {
    seq!["  "@ + label] + Seq::new(
        items.len(),
        |k: int| numbered_row((k + 1) as nat, items[k].0, items[k].1),
    )
}

impl SelectPrompt {
    pub closed spec fn label_view(&self) -> Seq<char> {
        self.label@
    }

    pub closed spec fn options_view(&self) -> Seq<OptionView> {
        self.options@.map_values(|o: SelectOption| option_view(o))
    }

    pub closed spec fn prompt_hint_view(&self) -> Option<Seq<char>> {
        opt_seq(self.prompt_hint)
    }

    pub closed spec fn max_items_view(&self) -> usize {
        self.max_items
    }

    /// The highlighted row.
    pub closed spec fn pos(&self) -> usize {
        self.pos
    }

    pub closed spec fn settings_view(&self) -> Settings {
        self.settings
    }

    /// Append an option: `value` identifies it, `label` is what the user sees.
    pub fn option(self, value: &str, label: &str) -> (r: SelectPrompt)
        ensures
            r.options_view() == self.options_view().push((value@, label@, None::<Seq<char>>)),
            r.label_view() == self.label_view(),
            r.prompt_hint_view() == self.prompt_hint_view(),
            r.max_items_view() == self.max_items_view(),
            r.pos() == self.pos(),
            r.settings_view() == self.settings_view(),
    {
        let mut s = self;
        s.options.push(SelectOption { value: owned(value), label: owned(label), hint: None });
        proof {
            assert(s.options@.map_values(|o: SelectOption| option_view(o)) =~= self.options_view().push(
                (value@, label@, None::<Seq<char>>),
            ));
        }
        s
    }

    /// Attach a hint to the most recently added option, if any.
    pub fn hint(self, text: &str) -> (r: SelectPrompt)
        ensures
            self.options_view().len() == 0 ==> r.options_view() == self.options_view(),
            self.options_view().len() > 0 ==> r.options_view() == self.options_view().update(
                self.options_view().len() - 1,
                (self.options_view().last().0, self.options_view().last().1, Some(text@)),
            ),
            r.label_view() == self.label_view(),
            r.prompt_hint_view() == self.prompt_hint_view(),
            r.max_items_view() == self.max_items_view(),
            r.pos() == self.pos(),
            r.settings_view() == self.settings_view(),
    {
        let mut s = self;
        let n = s.options.len();
        if n > 0 {
            let last = s.options.pop().unwrap();
            s.options.push(SelectOption { value: last.value, label: last.label, hint: Some(owned(text)) });
            proof {
                assert(s.options@.map_values(|o: SelectOption| option_view(o)) =~= self.options_view().update(
                    self.options_view().len() - 1,
                    (self.options_view().last().0, self.options_view().last().1, Some(text@)),
                ));
            }
        }
        s
    }

    /// One-line hint shown under the prompt label.
    pub fn prompt_hint(self, text: &str) -> (r: SelectPrompt)
        ensures
            r.prompt_hint_view() == Some(text@),
            r.options_view() == self.options_view(),
            r.label_view() == self.label_view(),
            r.max_items_view() == self.max_items_view(),
            r.pos() == self.pos(),
            r.settings_view() == self.settings_view(),
    {
        SelectPrompt { prompt_hint: Some(owned(text)), ..self }
    }

    /// Index of the initially selected option.
    pub fn default(self, index: usize) -> (r: SelectPrompt)
        ensures
            r.pos() == index,
            r.options_view() == self.options_view(),
            r.label_view() == self.label_view(),
            r.prompt_hint_view() == self.prompt_hint_view(),
            r.max_items_view() == self.max_items_view(),
            r.settings_view() == self.settings_view(),
    {
        SelectPrompt { pos: index, ..self }
    }

    /// Number of option rows visible at once (at least 1).
    pub fn max_items(self, n: usize) -> (r: SelectPrompt)
        ensures
            r.max_items_view() == if n >= 1 { n } else { 1 },
            r.options_view() == self.options_view(),
            r.label_view() == self.label_view(),
            r.prompt_hint_view() == self.prompt_hint_view(),
            r.pos() == self.pos(),
            r.settings_view() == self.settings_view(),
    {
        SelectPrompt { max_items: if n >= 1 { n } else { 1 }, ..self }
    }

    /// Render and read key behaviour with `s` in place of the defaults.
    pub fn settings(self, s: Settings) -> (r: SelectPrompt)
        ensures
            r.settings_view() == s,
            r.options_view() == self.options_view(),
            r.label_view() == self.label_view(),
            r.prompt_hint_view() == self.prompt_hint_view(),
            r.max_items_view() == self.max_items_view(),
            r.pos() == self.pos(),
    {
        SelectPrompt { settings: s, ..self }
    }

    /// Prepare to run: clamp the initial position onto the last option.
    pub fn ready(self) -> (r: SelectPrompt)
        requires
            self.options_view().len() > 0,
        ensures
            r.pos() == if self.pos() < self.options_view().len() {
                self.pos() as int
            } else {
                self.options_view().len() - 1
            },
            r.options_view() == self.options_view(),
            r.label_view() == self.label_view(),
            r.prompt_hint_view() == self.prompt_hint_view(),
            r.max_items_view() == self.max_items_view(),
            r.settings_view() == self.settings_view(),
    {
        let last = self.options.len() - 1;
        let p = if self.pos < last { self.pos } else { last };
        SelectPrompt { pos: p, ..self }
    }

    /// The number of options.
    pub fn option_count(&self) -> (r: usize)
        ensures
            r == self.options_view().len(),
    {
        self.options.len()
    }

    /// The label and the options as (label, hint).
    pub open spec fn listing_items(&self) -> Seq<(Seq<char>, Option<Seq<char>>)> {
        self.options_view().map_values(|o: OptionView| (o.1, o.2))
    }

    /// The rows printed before a fallback answer is read: the label and the
    /// numbered options.
    pub fn fallback_rows(&self) -> (r: Vec<String>)
        ensures
            r@.map_values(|x: String| x@) == numbered_listing(self.label_view(), self.listing_items()),
    {
        let mut out: Vec<String> = Vec::new();
        let mut head = owned("  ");
        proof {
            reveal_strlit("  ");
        }
        head.append(self.label.as_str());
        out.push(head);
        let ghost items = self.listing_items();
        let mut i: usize = 0;
        while i < self.options.len()
            invariant
                items == self.listing_items(),
                items.len() == self.options@.len(),
                0 <= i <= items.len(),
                out@.map_values(|x: String| x@) == seq!["  "@ + self.label_view()] + Seq::new(
                    i as nat,
                    |k: int| numbered_row((k + 1) as nat, items[k].0, items[k].1),
                ),
            decreases items.len() - i,
        {
            let o = &self.options[i];
            proof {
                assert(option_view(self.options@[i as int]) == self.options_view()[i as int]);
                assert(items[i as int] == (o.label@, opt_seq(o.hint)));
            }
            let row = numbered_row_exec(i + 1, o.label.as_str(), &o.hint);
            let ghost prev = out@.map_values(|x: String| x@);
            out.push(row);
            proof {
                assert(out@.map_values(|x: String| x@) =~= prev.push(row@));
                assert(out@.map_values(|x: String| x@) =~= seq!["  "@ + self.label_view()] + Seq::new(
                    (i + 1) as nat,
                    |k: int| numbered_row((k + 1) as nat, items[k].0, items[k].1),
                ));
            }
            i += 1;
        }
        out
    }

    /// The question of the fallback: `  Enter number (1–N): `.
    pub fn fallback_ask(&self) -> (r: String)
        ensures
            r@ == ask_number_text(self.options_view().len()),
    {
        ask_number(self.options.len())
    }

    /// The answer to a line that picks no option.
    pub fn fallback_retry(&self) -> (r: String)
        ensures
            r@ == retry_number_text(self.options_view().len()),
    {
        retry_number(self.options.len())
    }

    /// The option picked by the number typed on a fallback line (1 for
    /// the first option), if the line reads as one.
    pub fn pick_number(&self, line: &str) -> (r: Option<Selected>)
        ensures
            match parsed_usize(line@) {
                Some(n) => if 1 <= n <= self.options_view().len() {
                    r matches Some(sel) && sel.index == n - 1 && sel.value@ == self.options_view()[n
                        - 1].0 && sel.label@ == self.options_view()[n - 1].1
                } else {
                    r is None
                },
                None => r is None,
            },
    {
        match parse_usize(line) {
            Some(n) => {
                if n >= 1 && n <= self.options.len() {
                    let opt = &self.options[n - 1];
                    proof {
                        assert(option_view(self.options@[n - 1]) == self.options_view()[n - 1]);
                    }
                    Some(Selected { index: n - 1, value: opt.value.clone(), label: opt.label.clone() })
                } else {
                    None
                }
            },
            None => None,
        }
    }

    /// The option rows currently shown.
    pub open spec fn spec_option_rows(&self) -> Seq<Seq<char>> {
        let vp = viewport_of(
            self.options_view().len(),
            self.pos() as nat,
            self.max_items_view() as nat,
        );
        Seq::new(
            (vp.end - vp.start) as nat,
            |k: int|
                spec_cursor(
                    vp.start + k == self.pos(),
                    self.options_view()[vp.start + k].1,
                    self.options_view()[vp.start + k].2,
                    &self.settings_view(),
                ),
        )
    }

    /// The rows above the options: label, optional prompt hint, spacer and
    /// the `↑ N more` marker.
    pub open spec fn spec_render_head(&self) -> Seq<Seq<char>> {
        let s = self.settings_view();
        let vp = viewport_of(
            self.options_view().len(),
            self.pos() as nat,
            self.max_items_view() as nat,
        );
        seq![spec_label_state(self.label_view(), false, &s)] + (if self.prompt_hint_view() is Some {
            seq![spec_hint(self.prompt_hint_view()->0, &s)]
        } else {
            Seq::<Seq<char>>::empty()
        }) + seq![spec_hint(Seq::empty(), &s)] + (if vp.above > 0 {
            seq![spec_hint(more_text("↑"@, vp.above as nat), &s)]
        } else {
            Seq::<Seq<char>>::empty()
        })
    }

    /// The rows below the options: the `↓ N more` marker and the bottom row.
    pub open spec fn spec_render_tail(&self) -> Seq<Seq<char>> {
        let s = self.settings_view();
        let vp = viewport_of(
            self.options_view().len(),
            self.pos() as nat,
            self.max_items_view() as nat,
        );
        (if vp.below > 0 {
            seq![spec_hint(more_text("↓"@, vp.below as nat), &s)]
        } else {
            Seq::<Seq<char>>::empty()
        }) + seq![spec_frame_bot(None, &s)]
    }

    /// The rows of the live frame.
    pub open spec fn spec_render(&self) -> Seq<Seq<char>> {
        self.spec_render_head() + self.spec_option_rows() + self.spec_render_tail()
    }
}

pub(crate) fn empty_str() -> (r: &'static str)
    ensures
        r@ == Seq::<char>::empty(),
{
    let e = "";
    proof {
        reveal_strlit("");
    }
    e
}

impl Prompt for SelectPrompt {
    type Output = Selected;

    open spec fn handle_ok(&self, key: Key) -> bool {
        &&& self.options_view().len() > 0
        &&& key == Key::Enter ==> self.pos() < self.options_view().len()
    }

    open spec fn render_ok(&self) -> bool {
        self.pos() + (self.max_items_view() - self.max_items_view() / 2) <= usize::MAX
    }

    /// Up/Down (and `k`/`j` with vim keys) move the highlight without
    /// wrapping, Enter submits the highlighted option, Escape, Ctrl-C and
    /// `q` (with vim keys) cancel.
    fn handle(&mut self, key: Key) -> (r: Step<Selected>)
        ensures
            final(self).options_view() == old(self).options_view(),
            final(self).label_view() == old(self).label_view(),
            final(self).prompt_hint_view() == old(self).prompt_hint_view(),
            final(self).max_items_view() == old(self).max_items_view(),
            final(self).settings_view() == old(self).settings_view(),
            ({
                let vim = old(self).settings_view().vim_keys;
                let p = old(self).pos();
                let last = old(self).options_view().len() - 1;
                if key == Key::Up || (vim && key == Key::Char('k')) {
                    r is Continue && final(self).pos() == if p > 0 { p - 1 } else { p as int }
                } else if key == Key::Down || (vim && key == Key::Char('j')) {
                    r is Continue && final(self).pos() == if p < last { p + 1 } else { p as int }
                } else if vim && key == Key::Char('q') {
                    r is Cancel && final(self).pos() == p
                } else if key == Key::Enter {
                    final(self).pos() == p && (r matches Step::Submit(sel) && sel.index == p
                        && sel.value@ == old(self).options_view()[p as int].0 && sel.label@ == old(
                        self,
                    ).options_view()[p as int].1)
                } else if key == Key::Escape || key == Key::Interrupt {
                    r is Cancel && final(self).pos() == p
                } else {
                    r is Continue && final(self).pos() == p
                }
            }),
    {
        let vim = self.settings.vim_keys;
        let last = self.options.len() - 1;
        if key == Key::Up || (vim && key == Key::Char('k')) {
            if self.pos > 0 {
                self.pos = self.pos - 1;
            }
            Step::Continue
        } else if key == Key::Down || (vim && key == Key::Char('j')) {
            if self.pos < last {
                self.pos = self.pos + 1;
            }
            Step::Continue
        } else if vim && key == Key::Char('q') {
            Step::Cancel
        } else if key == Key::Enter {
            let opt = &self.options[self.pos];
            proof {
                assert(option_view(self.options@[self.pos as int]) == self.options_view()[self.pos as int]);
            }
            Step::Submit(Selected { index: self.pos, value: opt.value.clone(), label: opt.label.clone() })
        } else if key == Key::Escape || key == Key::Interrupt {
            Step::Cancel
        } else {
            Step::Continue
        }
    }

    /// Label, optional prompt hint, spacer, `↑ N more`, the visible
    /// options, `↓ N more`, bottom row.
    fn render(&self, _ctx: RenderCtx) -> (r: Frame)
        ensures
            rows(r) == self.spec_render(),
    {
        let s = &self.settings;
        let mut f: Frame = Vec::new();
        f.push(label(self.label.as_str(), s));
        match &self.prompt_hint {
            Some(h) => f.push(hint(h.as_str(), s)),
            None => {},
        }
        f.push(hint(empty_str(), s));
        let vp = limit_options(self.options.len(), self.pos, self.max_items);
        if vp.above > 0 {
            let m = more("↑", vp.above);
            f.push(hint(m.as_str(), s));
        }
        let ghost head = rows(f);
        assert(head =~= self.spec_render_head());
        let mut i = vp.start;
        while i < vp.end
            invariant
                vp == viewport_of(self.options_view().len(), self.pos() as nat, self.max_items_view() as nat),
                vp.start <= i <= vp.end <= self.options@.len(),
                *s == self.settings_view(),
                head == self.spec_render_head(),
                rows(f) == head + self.spec_option_rows().take(i - vp.start),
            decreases vp.end - i,
        {
            let opt = &self.options[i];
            let h: Option<&str> = match &opt.hint {
                Some(x) => Some(x.as_str()),
                None => None,
            };
            proof {
                assert(option_view(self.options@[i as int]) == self.options_view()[i as int]);
            }
            let row = cursor(i == self.pos, opt.label.as_str(), h, s);
            proof {
                assert(super::theme::opt_view(h) == self.options_view()[i as int].2);
                assert(opt.label@ == self.options_view()[i as int].1);
                let k = i - vp.start;
                assert(0 <= k < self.spec_option_rows().len());
                assert(self.spec_option_rows()[k] == spec_cursor(
                    vp.start + k == self.pos(),
                    self.options_view()[vp.start + k].1,
                    self.options_view()[vp.start + k].2,
                    &self.settings_view(),
                ));
                assert(row@ == self.spec_option_rows()[i - vp.start]);
            }
            let ghost prev = f@;
            f.push(row);
            i = i + 1;
            proof {
                assert(f@ == prev.push(row));
                assert(rows(f) =~= prev.map_values(|x: String| x@).push(row@));
                assert(self.spec_option_rows().take(i - vp.start) =~= self.spec_option_rows().take(
                    i - 1 - vp.start,
                ).push(row@));
                assert(rows(f) =~= head + self.spec_option_rows().take(i - vp.start));
            }
        }
        if vp.below > 0 {
            let m = more("↓", vp.below);
            f.push(hint(m.as_str(), s));
        }
        f.push(frame_bot(None, s));
        proof {
            assert(self.spec_option_rows().take(vp.end - vp.start) =~= self.spec_option_rows());
            assert(rows(f) =~= self.spec_render());
        }
        f
    }

    /// Question, the chosen label, connector.
    fn render_answered(&self, value: &Selected) -> (r: Frame)
        ensures
            rows(r) == split_on(spec_answered(self.label_view(), value.label@, &self.settings_view()), crlf()),
    {
        answered_rows(self.label.as_str(), value.label.as_str(), &self.settings)
    }
}

} // verus!

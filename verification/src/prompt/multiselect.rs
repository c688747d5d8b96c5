//! Multi-choice select: Space toggles, Enter submits.

use vstd::prelude::*;
use crate::strutil::{joined, owned, parse_usize, parsed_usize, split_on, split_words, words_of};
use super::base::{Frame, Key, Prompt, RenderCtx, Step, frame::rows};
use super::limit_options::{limit_options, viewport_of};
use super::select::{empty_str, more, more_text, numbered_listing, numbered_row, numbered_row_exec};
use super::settings::Settings;
use super::text::{answered_rows, crlf, opt_seq};
use super::theme::{
    frame_bot, hint, label, multi_option, spec_answered, spec_frame_bot, spec_hint,
    spec_label_state, spec_multi_option,
};

verus! {

broadcast use vstd::string::group_string_axioms;

struct MsOption {
    value: String,
    label: String,
    hint: Option<String>,
    checked: bool,
}

/// An option as (value, label, hint, checked).
pub type MsOptionView = (Seq<char>, Seq<char>, Option<Seq<char>>, bool);

spec fn ms_view(o: MsOption) -> MsOptionView {
    (o.value@, o.label@, opt_seq(o.hint), o.checked)
}

/// The checked options of `opts[..n]` as (index, value), in order.
pub open spec fn checked_upto(opts: Seq<MsOptionView>, n: int) -> Seq<(usize, Seq<char>)>
    decreases n,
{
    if n <= 0 {
        Seq::empty()
    } else if opts[n - 1].3 {
        checked_upto(opts, n - 1).push(((n - 1) as usize, opts[n - 1].0))
    } else {
        checked_upto(opts, n - 1)
    }
}

/// The checked options as (index, value), in the order they were added.
pub open spec fn checked_items(opts: Seq<MsOptionView>) -> Seq<(usize, Seq<char>)> {
    checked_upto(opts, opts.len() as int)
}

/// Every entry of `checked_upto(opts, n)` is a checked option below `n`,
/// with its value.
pub proof fn lemma_checked_upto(opts: Seq<MsOptionView>, n: int)
    requires
        0 <= n <= opts.len() <= usize::MAX,
    ensures
        checked_upto(opts, n).len() <= n,
        forall|k: int|
            0 <= k < checked_upto(opts, n).len() ==> 0 <= (#[trigger] checked_upto(opts, n)[k]).0
                < n && opts[checked_upto(opts, n)[k].0 as int].3 && checked_upto(opts, n)[k].1
                == opts[checked_upto(opts, n)[k].0 as int].0,
    decreases n,
{
    if n > 0 {
        lemma_checked_upto(opts, n - 1);
        let prev = checked_upto(opts, n - 1);
        if opts[n - 1].3 {
            assert forall|k: int| 0 <= k < checked_upto(opts, n).len() implies 0 <= (
            #[trigger] checked_upto(opts, n)[k]).0 < n && opts[checked_upto(opts, n)[k].0 as int].3
                && checked_upto(opts, n)[k].1 == opts[checked_upto(opts, n)[k].0 as int].0 by {
                if k < prev.len() {
                    assert(checked_upto(opts, n)[k] == prev[k]);
                } else {
                    assert(checked_upto(opts, n)[k] == ((n - 1) as usize, opts[n - 1].0));
                }
            }
        }
    }
}

/// `opts` with option `p` checked if it was not, unchecked if it was.
pub open spec fn toggled(opts: Seq<MsOptionView>, p: int) -> Seq<MsOptionView> {
    opts.update(p, (opts[p].0, opts[p].1, opts[p].2, !opts[p].3))
}

/// Pressing Space twice on the same option leaves the options as they were.
pub proof fn law_space_twice_restores(opts: Seq<MsOptionView>, p: int)
    requires
        0 <= p < opts.len(),
    ensures
        toggled(toggled(opts, p), p) == opts,
{
    assert(toggled(toggled(opts, p), p) =~= opts);
}

/// What Enter submits is exactly the checked options, each with its own
/// index and value, in the order they were added.
pub proof fn law_submitted_are_checked(opts: Seq<MsOptionView>)
    requires
        opts.len() <= usize::MAX,
    ensures
        forall|k: int|
            0 <= k < checked_items(opts).len() ==> {
                let (i, v) = #[trigger] checked_items(opts)[k];
                0 <= i < opts.len() && opts[i as int].3 && v == opts[i as int].0
            },
        checked_items(opts).len() <= opts.len(),
{
    lemma_checked_upto(opts, opts.len() as int);
}

/// Set of options the user checked off, returned by [`multiselect`].
#[derive(Debug, Clone)]
pub struct MultiSelected {
    items: Vec<(usize, String)>,
}

impl MultiSelected {
    /// The checked options as (index, value) pairs.
    pub closed spec fn items_view(&self) -> Seq<(usize, Seq<char>)> {
        self.items@.map_values(|p: (usize, String)| (p.0, p.1@))
    }

    /// `(index, value)` for every checked option, in the order they were
    /// added.
    pub fn iter(&self) -> (r: Vec<(usize, String)>)
        ensures
            r@.map_values(|p: (usize, String)| (p.0, p.1@)) == self.items_view(),
    {
        let mut out: Vec<(usize, String)> = Vec::new();
        let mut k: usize = 0;
        while k < self.items.len()
            invariant
                0 <= k <= self.items@.len(),
                out@.map_values(|p: (usize, String)| (p.0, p.1@)) == self.items_view().take(k as int),
            decreases self.items@.len() - k,
        {
            let i = self.items[k].0;
            let v = self.items[k].1.clone();
            let ghost prev = out@;
            let ghost vv = v@;
            out.push((i, v));
            proof {
                assert(self.items_view()[k as int] == (i, vv));
                assert(out@ == prev.push((i, v)));
                assert(out@.map_values(|p: (usize, String)| (p.0, p.1@)) =~= prev.map_values(
                    |p: (usize, String)| (p.0, p.1@),
                ).push((i, vv)));
                assert(self.items_view().take(k + 1) =~= self.items_view().take(k as int).push(
                    (i, vv),
                ));
                assert(out@.map_values(|p: (usize, String)| (p.0, p.1@)) =~= self.items_view().take(
                    k + 1,
                ));
            }
            k += 1;
        }
        proof {
            assert(self.items_view().take(self.items@.len() as int) =~= self.items_view());
        }
        out
    }

    /// Zero-based indices of every checked option.
    pub fn indices(&self) -> (r: Vec<usize>)
        ensures
            r@ == self.items_view().map_values(|p: (usize, Seq<char>)| p.0),
    {
        let mut out: Vec<usize> = Vec::new();
        let mut k: usize = 0;
        while k < self.items.len()
            invariant
                0 <= k <= self.items@.len(),
                out@ == self.items_view().map_values(|p: (usize, Seq<char>)| p.0).take(k as int),
            decreases self.items@.len() - k,
        {
            out.push(self.items[k].0);
            proof {
                assert(out@ =~= self.items_view().map_values(|p: (usize, Seq<char>)| p.0).take(
                    k + 1,
                ));
            }
            k += 1;
        }
        proof {
            assert(self.items_view().map_values(|p: (usize, Seq<char>)| p.0).take(
                self.items@.len() as int,
            ) =~= self.items_view().map_values(|p: (usize, Seq<char>)| p.0));
        }
        out
    }

    /// Machine values of every checked option.
    pub fn values(&self) -> (r: Vec<String>)
        ensures
            r@.map_values(|x: String| x@) == self.items_view().map_values(
                |p: (usize, Seq<char>)| p.1,
            ),
    {
        let mut out: Vec<String> = Vec::new();
        let mut k: usize = 0;
        while k < self.items.len()
            invariant
                0 <= k <= self.items@.len(),
                out@.map_values(|x: String| x@) == self.items_view().map_values(
                    |p: (usize, Seq<char>)| p.1,
                ).take(k as int),
            decreases self.items@.len() - k,
        {
            let v = self.items[k].1.clone();
            let ghost prev = out@;
            let ghost vv = v@;
            out.push(v);
            proof {
                assert(self.items_view()[k as int].1 == vv);
                assert(out@.map_values(|x: String| x@) =~= prev.map_values(|x: String| x@).push(vv));
                assert(out@.map_values(|x: String| x@) =~= self.items_view().map_values(
                    |p: (usize, Seq<char>)| p.1,
                ).take(k + 1));
            }
            k += 1;
        }
        proof {
            assert(self.items_view().map_values(|p: (usize, Seq<char>)| p.1).take(
                self.items@.len() as int,
            ) =~= self.items_view().map_values(|p: (usize, Seq<char>)| p.1));
        }
        out
    }

    /// `true` if nothing was checked.
    pub fn is_empty(&self) -> (r: bool)
        ensures
            r == (self.items_view().len() == 0),
    {
        self.items.len() == 0
    }

    /// Number of checked options.
    pub fn len(&self) -> (r: usize)
        ensures
            r == self.items_view().len(),
    {
        self.items.len()
    }
}

/// Builder returned by [`multiselect()`].
pub struct MultiSelectPrompt {
    label: String,
    options: Vec<MsOption>,
    required: bool,
    prompt_hint: Option<String>,
    max_items: usize,
    cur: usize,
    settings: Settings,
}

/// Ask the user to check any number of options from a list.
pub fn multiselect(label: &str) -> (r: MultiSelectPrompt)
    ensures
        r.label_view() == label@,
        r.options_view() == Seq::<MsOptionView>::empty(),
        !r.required_view(),
        r.prompt_hint_view() == None::<Seq<char>>,
        r.max_items_view() == 10,
        r.cur() == 0,
        r.settings_view().is_default_flags(),
{
    MultiSelectPrompt {
        label: owned(label),
        options: Vec::new(),
        required: false,
        prompt_hint: None,
        max_items: 10,
        cur: 0,
        settings: Settings::default(),
    }
}

/// The message shown when a required multiselect is submitted empty.
pub open spec fn select_one_msg() -> Seq<char> {
    "Select at least one option"@
}

/// The value shown after submission: the checked labels joined with `, `,
/// or `none`.
pub open spec fn summary_text(opts: Seq<MsOptionView>, items: Seq<(usize, Seq<char>)>) -> Seq<char> {
    if items.len() == 0 {
        "none"@
    } else {
        joined(items.map_values(|p: (usize, Seq<char>)| opts[p.0 as int].1), ", "@)
    }
}

impl MultiSelectPrompt {
    pub closed spec fn label_view(&self) -> Seq<char> {
        self.label@
    }

    pub closed spec fn options_view(&self) -> Seq<MsOptionView> {
        self.options@.map_values(|o: MsOption| ms_view(o))
    }

    pub closed spec fn required_view(&self) -> bool {
        self.required
    }

    pub closed spec fn prompt_hint_view(&self) -> Option<Seq<char>> {
        opt_seq(self.prompt_hint)
    }

    pub closed spec fn max_items_view(&self) -> usize {
        self.max_items
    }

    /// The highlighted row.
    pub closed spec fn cur(&self) -> usize {
        self.cur
    }

    pub closed spec fn settings_view(&self) -> Settings {
        self.settings
    }

    /// Everything but the options and the highlighted row is the same.
    pub open spec fn same_config(a: &MultiSelectPrompt, b: &MultiSelectPrompt) -> bool {
        &&& a.label_view() == b.label_view()
        &&& a.required_view() == b.required_view()
        &&& a.prompt_hint_view() == b.prompt_hint_view()
        &&& a.max_items_view() == b.max_items_view()
        &&& a.settings_view() == b.settings_view()
    }

    /// Append an unchecked option.
    pub fn option(self, value: &str, label: &str) -> (r: MultiSelectPrompt)
        ensures
            r.options_view() == self.options_view().push(
                (value@, label@, None::<Seq<char>>, false),
            ),
            Self::same_config(&r, &self),
            r.cur() == self.cur(),
    {
        let mut s = self;
        s.options.push(
            MsOption { value: owned(value), label: owned(label), hint: None, checked: false },
        );
        proof {
            assert(s.options@.map_values(|o: MsOption| ms_view(o)) =~= self.options_view().push(
                (value@, label@, None::<Seq<char>>, false),
            ));
        }
        s
    }

    /// Attach a hint to the most recently added option, if any.
    pub fn hint(self, text: &str) -> (r: MultiSelectPrompt)
        ensures
            self.options_view().len() == 0 ==> r.options_view() == self.options_view(),
            self.options_view().len() > 0 ==> r.options_view() == self.options_view().update(
                self.options_view().len() - 1,
                (
                    self.options_view().last().0,
                    self.options_view().last().1,
                    Some(text@),
                    self.options_view().last().3,
                ),
            ),
            Self::same_config(&r, &self),
            r.cur() == self.cur(),
    {
        let mut s = self;
        if s.options.len() > 0 {
            let last = s.options.pop().unwrap();
            s.options.push(
                MsOption {
                    value: last.value,
                    label: last.label,
                    hint: Some(owned(text)),
                    checked: last.checked,
                },
            );
            proof {
                assert(s.options@.map_values(|o: MsOption| ms_view(o)) =~= self.options_view().update(
                    self.options_view().len() - 1,
                    (
                        self.options_view().last().0,
                        self.options_view().last().1,
                        Some(text@),
                        self.options_view().last().3,
                    ),
                ));
            }
        }
        s
    }

    /// Mark the most recently added option as initially checked.
    pub fn checked(self) -> (r: MultiSelectPrompt)
        ensures
            self.options_view().len() == 0 ==> r.options_view() == self.options_view(),
            self.options_view().len() > 0 ==> r.options_view() == self.options_view().update(
                self.options_view().len() - 1,
                (
                    self.options_view().last().0,
                    self.options_view().last().1,
                    self.options_view().last().2,
                    true,
                ),
            ),
            Self::same_config(&r, &self),
            r.cur() == self.cur(),
    {
        let mut s = self;
        if s.options.len() > 0 {
            let last = s.options.pop().unwrap();
            s.options.push(
                MsOption { value: last.value, label: last.label, hint: last.hint, checked: true },
            );
            proof {
                assert(s.options@.map_values(|o: MsOption| ms_view(o)) =~= self.options_view().update(
                    self.options_view().len() - 1,
                    (
                        self.options_view().last().0,
                        self.options_view().last().1,
                        self.options_view().last().2,
                        true,
                    ),
                ));
            }
        }
        s
    }

    /// One-line hint shown under the prompt label.
    pub fn prompt_hint(self, t: &str) -> (r: MultiSelectPrompt)
        ensures
            r.prompt_hint_view() == Some(t@),
            r.label_view() == self.label_view(),
            r.required_view() == self.required_view(),
            r.max_items_view() == self.max_items_view(),
            r.settings_view() == self.settings_view(),
            r.options_view() == self.options_view(),
            r.cur() == self.cur(),
    {
        MultiSelectPrompt { prompt_hint: Some(owned(t)), ..self }
    }

    /// When `true`, refuse to submit until at least one option is checked.
    pub fn required(self, r: bool) -> (out: MultiSelectPrompt)
        ensures
            out.required_view() == r,
            out.label_view() == self.label_view(),
            out.prompt_hint_view() == self.prompt_hint_view(),
            out.max_items_view() == self.max_items_view(),
            out.settings_view() == self.settings_view(),
            out.options_view() == self.options_view(),
            out.cur() == self.cur(),
    {
        MultiSelectPrompt { required: r, ..self }
    }

    /// Number of option rows visible at once (at least 1).
    pub fn max_items(self, n: usize) -> (r: MultiSelectPrompt)
        ensures
            r.max_items_view() == if n >= 1 { n } else { 1 },
            r.label_view() == self.label_view(),
            r.required_view() == self.required_view(),
            r.prompt_hint_view() == self.prompt_hint_view(),
            r.settings_view() == self.settings_view(),
            r.options_view() == self.options_view(),
            r.cur() == self.cur(),
    {
        MultiSelectPrompt { max_items: if n >= 1 { n } else { 1 }, ..self }
    }

    /// Render and read key behaviour with `s` in place of the defaults.
    pub fn settings(self, s: Settings) -> (r: MultiSelectPrompt)
        ensures
            r.settings_view() == s,
            r.label_view() == self.label_view(),
            r.required_view() == self.required_view(),
            r.prompt_hint_view() == self.prompt_hint_view(),
            r.max_items_view() == self.max_items_view(),
            r.options_view() == self.options_view(),
            r.cur() == self.cur(),
    {
        MultiSelectPrompt { settings: s, ..self }
    }

    /// The checked options, in the order they were added.
    pub fn collect(&self) -> (r: MultiSelected)
        ensures
            r.items_view() == checked_items(self.options_view()),
    {
        let ghost opts = self.options_view();
        let mut items: Vec<(usize, String)> = Vec::new();
        let mut i: usize = 0;
        while i < self.options.len()
            invariant
                opts == self.options_view(),
                0 <= i <= self.options@.len(),
                items@.map_values(|p: (usize, String)| (p.0, p.1@)) == checked_upto(opts, i as int),
            decreases self.options@.len() - i,
        {
            proof {
                assert(ms_view(self.options@[i as int]) == opts[i as int]);
            }
            if self.options[i].checked {
                items.push((i, self.options[i].value.clone()));
                proof {
                    assert(items@.map_values(|p: (usize, String)| (p.0, p.1@)) =~= checked_upto(
                        opts,
                        i + 1,
                    ));
                }
            }
            i += 1;
        }
        MultiSelected { items }
    }

    /// The number of options.
    pub fn option_count(&self) -> (r: usize)
        ensures
            r == self.options_view().len(),
    {
        self.options.len()
    }

    /// The options as (mark and label, hint): `●` for a checked option,
    /// `○` for another.
    pub open spec fn listing_items(&self) -> Seq<(Seq<char>, Option<Seq<char>>)> {
        self.options_view().map_values(
            |o: MsOptionView| ((if o.3 { "●"@ } else { "○"@ }) + " "@ + o.1, o.2),
        )
    }

    /// The rows a fallback prints before reading the numbers: the label,
    /// every option numbered with its mark, and the question.
    pub fn fallback_rows(&self) -> (r: Vec<String>)
        ensures
            r@.map_values(|x: String| x@) == numbered_listing(self.label_view(), self.listing_items()).push(
                "  Enter numbers separated by spaces:"@,
            ),
    {
        let mut out: Vec<String> = Vec::new();
        let mut head = owned("  ");
        proof {
            reveal_strlit("  ");
            reveal_strlit("●");
            reveal_strlit("○");
            reveal_strlit(" ");
        }
        head.append(self.label.as_str());
        out.push(head);
        let ghost items = self.listing_items();
        let mut i: usize = 0;
        while i < self.options.len()
            invariant
                items == self.listing_items(),
                items.len() == self.options@.len(),
                0 <= i <= items.len(),
                out@.map_values(|x: String| x@) == seq!["  "@ + self.label_view()] + Seq::new(
                    i as nat,
                    |k: int| numbered_row((k + 1) as nat, items[k].0, items[k].1),
                ),
            decreases items.len() - i,
        {
            let o = &self.options[i];
            let mut shown = owned(if o.checked { "●" } else { "○" });
            shown.append(" ");
            shown.append(o.label.as_str());
            proof {
                assert(ms_view(self.options@[i as int]) == self.options_view()[i as int]);
                assert(items[i as int] == (shown@, opt_seq(o.hint)));
            }
            let row = numbered_row_exec(i + 1, shown.as_str(), &o.hint);
            let ghost prev = out@.map_values(|x: String| x@);
            out.push(row);
            proof {
                assert(out@.map_values(|x: String| x@) =~= prev.push(row@));
                assert(out@.map_values(|x: String| x@) =~= seq!["  "@ + self.label_view()] + Seq::new(
                    (i + 1) as nat,
                    |k: int| numbered_row((k + 1) as nat, items[k].0, items[k].1),
                ));
            }
            i += 1;
        }
        out.push(owned("  Enter numbers separated by spaces:"));
        out
    }

    /// The checked set after the numbers typed on one line: every option
    /// whose number (from 1) some whitespace-separated word reads as, each
    /// once, in option order.
    pub fn pick_numbers(&self, line: &str) -> (r: MultiSelected)
        ensures
            r.items_view() == picked_numbers(self.options_view(), words_of(line@)),
    {
        let ghost opts = self.options_view();
        let words = split_words(line);
        let ghost ws = words@.map_values(|x: String| x@);
        let n = self.options.len();
        let marks = number_marks(&words, n);
        let mut items: Vec<(usize, String)> = Vec::new();
        let mut i: usize = 0;
        while i < n
            invariant
                opts == self.options_view(),
                n == opts.len(),
                marks@.len() == n,
                forall|t: int| 0 <= t < n ==> marks@[t] == number_in(ws, (t + 1) as nat),
                0 <= i <= n,
                items@.map_values(|p: (usize, String)| (p.0, p.1@)) == picked_upto(opts, ws, i as int),
            decreases n - i,
        {
            if marks[i] {
                proof {
                    assert(ms_view(self.options@[i as int]) == opts[i as int]);
                }
                let ghost prev = items@;
                let pair = (i, self.options[i].value.clone());
                let ghost pv = (pair.0, pair.1@);
                items.push(pair);
                proof {
                    assert(items@.map_values(|p: (usize, String)| (p.0, p.1@)) =~= prev.map_values(
                        |p: (usize, String)| (p.0, p.1@),
                    ).push(pv));
                }
            }
            i += 1;
        }
        MultiSelected { items }
    }

    /// The option rows currently shown.
    pub open spec fn spec_option_rows(&self) -> Seq<Seq<char>> {
        let vp = viewport_of(
            self.options_view().len(),
            self.cur() as nat,
            self.max_items_view() as nat,
        );
        Seq::new(
            (vp.end - vp.start) as nat,
            |k: int|
                {
                    let o = self.options_view()[vp.start + k];
                    spec_multi_option(vp.start + k == self.cur(), o.3, o.1, o.2, &self.settings_view())
                },
        )
    }

    /// The rows above the options.
    pub open spec fn spec_render_head(&self) -> Seq<Seq<char>> {
        let s = self.settings_view();
        let vp = viewport_of(
            self.options_view().len(),
            self.cur() as nat,
            self.max_items_view() as nat,
        );
        seq![spec_label_state(self.label_view(), false, &s)] + (if self.prompt_hint_view() is Some {
            seq![spec_hint(self.prompt_hint_view()->0, &s)]
        } else {
            Seq::<Seq<char>>::empty()
        }) + seq![spec_hint(Seq::empty(), &s)] + (if vp.above > 0 {
            seq![spec_hint(more_text("↑"@, vp.above as nat), &s)]
        } else {
            Seq::<Seq<char>>::empty()
        })
    }

    /// The rows below the options.
    pub open spec fn spec_render_tail(&self) -> Seq<Seq<char>> {
        let s = self.settings_view();
        let vp = viewport_of(
            self.options_view().len(),
            self.cur() as nat,
            self.max_items_view() as nat,
        );
        (if vp.below > 0 {
            seq![spec_hint(more_text("↓"@, vp.below as nat), &s)]
        } else {
            Seq::<Seq<char>>::empty()
        }) + seq![
            spec_hint(toggle_hint(), &s),
            spec_frame_bot(None, &s),
        ]
    }

    /// The rows of the live frame.
    pub open spec fn spec_render(&self) -> Seq<Seq<char>> {
        self.spec_render_head() + self.spec_option_rows() + self.spec_render_tail()
    }
}

/// The key help under the options.
pub open spec fn toggle_hint() -> Seq<char> {
    "Space to toggle · Enter to confirm"@
}

/// Some word of `words` reads as the number `m`.
pub open spec fn number_in(words: Seq<Seq<char>>, m: nat) -> bool {
    exists|j: int| 0 <= j < words.len() && #[trigger] parsed_usize(words[j]) == Some(m as usize)
}

/// What the numbers typed on a fallback line pick among `opts[..n]`: each
/// option whose number (from 1) some word reads as, once, in option order.
pub open spec fn picked_upto(opts: Seq<MsOptionView>, words: Seq<Seq<char>>, n: int) -> Seq<(usize, Seq<char>)>
    decreases n,
{
    if n <= 0 {
        Seq::empty()
    } else if number_in(words, n as nat) {
        picked_upto(opts, words, n - 1).push(((n - 1) as usize, opts[n - 1].0))
    } else {
        picked_upto(opts, words, n - 1)
    }
}

/// What the numbers typed on a fallback line pick: every option whose
/// number (from 1) is typed, each once, in the order the options were
/// added.
pub open spec fn picked_numbers(opts: Seq<MsOptionView>, words: Seq<Seq<char>>) -> Seq<(usize, Seq<char>)> {
    picked_upto(opts, words, opts.len() as int)
}

/// For each number from 1 to `n`, whether some word reads as it.
pub(crate) fn number_marks(words: &Vec<String>, n: usize) -> (r: Vec<bool>)
    ensures
        r@.len() == n,
        forall|t: int|
            0 <= t < n ==> r@[t] == number_in(words@.map_values(|x: String| x@), (t + 1) as nat),
{
    let ghost ws = words@.map_values(|x: String| x@);
    let mut marks: Vec<bool> = Vec::new();
    let mut i: usize = 0;
    while i < n
        invariant
            0 <= i <= n,
            marks@.len() == i,
            forall|t: int| 0 <= t < i ==> !marks@[t],
        decreases n - i,
    {
        marks.push(false);
        i += 1;
    }
    let mut k: usize = 0;
    while k < words.len()
        invariant
            ws == words@.map_values(|x: String| x@),
            0 <= k <= words@.len(),
            marks@.len() == n,
            forall|t: int| 0 <= t < n ==> marks@[t] == number_in(ws.take(k as int), (t + 1) as nat),
        decreases words@.len() - k,
    {
        let ghost before = marks@;
        let got = parse_usize(words[k].as_str());
        proof {
            assert(ws[k as int] == words@[k as int]@);
        }
        match got {
            Some(m) => {
                if m >= 1 && m <= n {
                    marks.set(m - 1, true);
                }
            },
            None => {},
        }
        proof {
            assert forall|t: int| 0 <= t < n implies marks@[t] == number_in(
                ws.take(k + 1),
                (t + 1) as nat,
            ) by {
                let w = ws.take(k + 1);
                if number_in(w, (t + 1) as nat) {
                    let j = choose|j: int|
                        0 <= j < w.len() && #[trigger] parsed_usize(w[j]) == Some((t + 1) as usize);
                    if j < k {
                        assert(ws.take(k as int)[j] == w[j]);
                    }
                }
                if before[t] {
                    let j = choose|j: int|
                        0 <= j < k && #[trigger] parsed_usize(ws.take(k as int)[j]) == Some(
                            (t + 1) as usize,
                        );
                    assert(w[j] == ws.take(k as int)[j]);
                }
                if got == Some((t + 1) as usize) {
                    assert(w[k as int] == ws[k as int]);
                }
            }
        }
        k += 1;
    }
    proof {
        assert(ws.take(words@.len() as int) =~= ws);
    }
    marks
}

impl Prompt for MultiSelectPrompt {
    type Output = MultiSelected;

    open spec fn handle_ok(&self, key: Key) -> bool {
        self.cur() < self.options_view().len()
    }

    open spec fn render_ok(&self) -> bool {
        self.cur() + (self.max_items_view() - self.max_items_view() / 2) <= usize::MAX
    }

    /// Up/Down (and `k`/`j` with vim keys) move the highlight without
    /// wrapping, Space toggles the highlighted option, Enter submits the
    /// checked set (refused when required and empty), Escape, Ctrl-C and
    /// `q` (with vim keys) cancel.
    fn handle(&mut self, key: Key) -> (r: Step<MultiSelected>)
        ensures
            Self::same_config(final(self), old(self)),
            ({
                let vim = old(self).settings_view().vim_keys;
                let p = old(self).cur();
                let opts = old(self).options_view();
                let last = opts.len() - 1;
                if key == Key::Up || (vim && key == Key::Char('k')) {
                    r is Continue && final(self).options_view() == opts && final(self).cur() == if p > 0 {
                        p - 1
                    } else {
                        p as int
                    }
                } else if key == Key::Down || (vim && key == Key::Char('j')) {
                    r is Continue && final(self).options_view() == opts && final(self).cur() == if p
                        < last {
                        p + 1
                    } else {
                        p as int
                    }
                } else if key == Key::Char(' ') {
                    r is Continue && final(self).cur() == p && final(self).options_view() == toggled(
                        opts,
                        p as int,
                    )
                } else if vim && key == Key::Char('q') {
                    r is Cancel && final(self).options_view() == opts && final(self).cur() == p
                } else if key == Key::Enter {
                    &&& final(self).options_view() == opts
                    &&& final(self).cur() == p
                    &&& if old(self).required_view() && checked_items(opts).len() == 0 {
                        r matches Step::Reject(m) && m@ == select_one_msg()
                    } else {
                        r matches Step::Submit(v) && v.items_view() == checked_items(opts)
                    }
                } else if key == Key::Escape || key == Key::Interrupt {
                    r is Cancel && final(self).options_view() == opts && final(self).cur() == p
                } else {
                    r is Continue && final(self).options_view() == opts && final(self).cur() == p
                }
            }),
    {
        let vim = self.settings.vim_keys;
        let last = self.options.len() - 1;
        if key == Key::Up || (vim && key == Key::Char('k')) {
            if self.cur > 0 {
                self.cur = self.cur - 1;
            }
            Step::Continue
        } else if key == Key::Down || (vim && key == Key::Char('j')) {
            if self.cur < last {
                self.cur = self.cur + 1;
            }
            Step::Continue
        } else if key == Key::Char(' ') {
            let ghost opts = self.options_view();
            let p = self.cur;
            let o = self.options.remove(p);
            let flipped = MsOption { value: o.value, label: o.label, hint: o.hint, checked: !o.checked };
            self.options.insert(p, flipped);
            proof {
                assert(ms_view(o) == opts[p as int]);
                assert(self.options_view() =~= opts.update(
                    p as int,
                    (opts[p as int].0, opts[p as int].1, opts[p as int].2, !opts[p as int].3),
                ));
            }
            Step::Continue
        } else if vim && key == Key::Char('q') {
            Step::Cancel
        } else if key == Key::Enter {
            let result = self.collect();
            if self.required && result.is_empty() {
                proof {
                    reveal_strlit("Select at least one option");
                }
                Step::Reject(owned("Select at least one option"))
            } else {
                Step::Submit(result)
            }
        } else if key == Key::Escape || key == Key::Interrupt {
            Step::Cancel
        } else {
            Step::Continue
        }
    }

    /// Label, optional prompt hint, spacer, `↑ N more`, the visible
    /// options, `↓ N more`, key help, bottom row.
    fn render(&self, _ctx: RenderCtx) -> (r: Frame)
        ensures
            rows(r) == self.spec_render(),
    {
        let s = &self.settings;
        let mut f: Frame = Vec::new();
        f.push(label(self.label.as_str(), s));
        match &self.prompt_hint {
            Some(h) => f.push(hint(h.as_str(), s)),
            None => {},
        }
        f.push(hint(empty_str(), s));
        let vp = limit_options(self.options.len(), self.cur, self.max_items);
        if vp.above > 0 {
            let m = more("↑", vp.above);
            f.push(hint(m.as_str(), s));
        }
        let ghost head = rows(f);
        assert(head =~= self.spec_render_head());
        let mut i = vp.start;
        while i < vp.end
            invariant
                vp == viewport_of(self.options_view().len(), self.cur() as nat, self.max_items_view() as nat),
                vp.start <= i <= vp.end <= self.options@.len(),
                *s == self.settings_view(),
                head == self.spec_render_head(),
                rows(f) == head + self.spec_option_rows().take(i - vp.start),
            decreases vp.end - i,
        {
            let opt = &self.options[i];
            let h: Option<&str> = match &opt.hint {
                Some(x) => Some(x.as_str()),
                None => None,
            };
            proof {
                assert(ms_view(self.options@[i as int]) == self.options_view()[i as int]);
            }
            let row = multi_option(i == self.cur, opt.checked, opt.label.as_str(), h, s);
            proof {
                assert(super::theme::opt_view(h) == self.options_view()[i as int].2);
                assert(row@ == self.spec_option_rows()[i - vp.start]);
            }
            let ghost prev = f@;
            f.push(row);
            i = i + 1;
            proof {
                assert(rows(f) =~= prev.map_values(|x: String| x@).push(row@));
                assert(self.spec_option_rows().take(i - vp.start) =~= self.spec_option_rows().take(
                    i - 1 - vp.start,
                ).push(row@));
            }
        }
        if vp.below > 0 {
            let m = more("↓", vp.below);
            f.push(hint(m.as_str(), s));
        }
        let help = "Space to toggle · Enter to confirm";
        proof {
            reveal_strlit("Space to toggle · Enter to confirm");
        }
        f.push(hint(help, s));
        f.push(frame_bot(None, s));
        proof {
            assert(self.spec_option_rows().take(vp.end - vp.start) =~= self.spec_option_rows());
            assert(rows(f) =~= self.spec_render());
        }
        f
    }

    /// Question, the checked labels (or `none`), connector.
    fn render_answered(&self, value: &MultiSelected) -> (r: Frame)
        ensures
            (forall|k: int|
                0 <= k < value.items_view().len() ==> (#[trigger] value.items_view()[k]).0
                    < self.options_view().len()) ==> rows(r) == split_on(
                spec_answered(
                    self.label_view(),
                    summary_text(self.options_view(), value.items_view()),
                    &self.settings_view(),
                ),
                crlf(),
            ),
    {
        let ghost opts = self.options_view();
        let ghost items = value.items_view();
        let ghost in_range = forall|k: int|
            0 <= k < items.len() ==> (#[trigger] items[k]).0 < opts.len();
        let mut labels: Vec<String> = Vec::new();
        let mut k: usize = 0;
        let mut ok = true;
        while k < value.items.len()
            invariant
                opts == self.options_view(),
                items == value.items_view(),
                0 <= k <= items.len(),
                ok ==> labels@.map_values(|x: String| x@) == items.take(k as int).map_values(
                    |p: (usize, Seq<char>)| opts[p.0 as int].1,
                ),
                in_range ==> ok,
                in_range == (forall|j: int| 0 <= j < items.len() ==> (#[trigger] items[j]).0 < opts.len()),
            decreases items.len() - k,
        {
            let i = value.items[k].0;
            proof {
                assert(items[k as int].0 == i);
            }
            if i < self.options.len() {
                proof {
                    assert(ms_view(self.options@[i as int]) == opts[i as int]);
                }
                let l = self.options[i].label.clone();
                let ghost prev = labels@;
                let ghost ll = l@;
                labels.push(l);
                proof {
                    if ok {
                        assert(items[k as int].0 == i);
                        assert(ll == opts[i as int].1);
                        assert(labels@.map_values(|x: String| x@) =~= prev.map_values(|x: String| x@).push(ll));
                        assert(items.take(k + 1) =~= items.take(k as int).push(items[k as int]));
                        assert(labels@.map_values(|x: String| x@) =~= items.take(k + 1).map_values(
                            |p: (usize, Seq<char>)| opts[p.0 as int].1,
                        ));
                    }
                }
            } else {
                ok = false;
            }
            k += 1;
        }
        proof {
            assert(items.take(items.len() as int) =~= items);
        }
        let val = if labels.len() == 0 {
            owned("none")
        } else {
            crate::strutil::join(&labels, ", ")
        };
        proof {
            reveal_strlit("none");
            reveal_strlit(", ");
        }
        answered_rows(self.label.as_str(), val.as_str(), &self.settings)
    }
}

} // verus!

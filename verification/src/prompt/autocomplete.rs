//! Autocomplete: type to filter the options, arrows to move, Enter to pick.

use vstd::prelude::*;
use crate::strutil::{
    chars_of, contains_exec, contains_seq, lowercase, owned, parse_usize, parsed_usize, push_char,
    split_on, string_of_range, to_lowercase,
};
use crate::styles::{dim, ok, paint, painted, white};
use super::base::{Frame, Key, Prompt, RenderCtx, Step, frame::rows};
use super::select::{
    ask_number, ask_number_text, empty_str, numbered_listing, numbered_row, numbered_row_exec,
    retry_number, retry_number_text,
};
use super::settings::Settings;
use super::text::{answered_rows, crlf, opt_seq};
use super::theme::{
    frame_bot, hint, hint_inline, label, spec_answered, spec_frame_bot, spec_hint, spec_hint_inline,
    spec_label_state, BAR, RADIO_OFF, RADIO_ON,
};

verus! {

broadcast use vstd::string::group_string_axioms;

struct AcOption {
    value: String,
    label: String,
    hint: Option<String>,
}

/// An option as (value, label, hint).
pub type AcView = (Seq<char>, Seq<char>, Option<Seq<char>>);

spec fn ac_view(o: AcOption) -> AcView {
    (o.value@, o.label@, opt_seq(o.hint))
}

/// The option matches the lowercased query: the query is empty, or it
/// occurs in the lowercased label or value.
pub open spec fn matches_query(o: AcView, q: Seq<char>) -> bool {
    q.len() == 0 || contains_seq(lowercase(o.1), q) || contains_seq(lowercase(o.0), q)
}

/// Indices of the options among `opts[..n]` that match `q`, in order.
pub open spec fn matching_upto(opts: Seq<AcView>, q: Seq<char>, n: int) -> Seq<int>
    decreases n,
{
    if n <= 0 {
        Seq::empty()
    } else if matches_query(opts[n - 1], q) {
        matching_upto(opts, q, n - 1).push(n - 1)
    } else {
        matching_upto(opts, q, n - 1)
    }
}

/// At most the first `m` items of `s`.
pub open spec fn at_most<A>(s: Seq<A>, m: nat) -> Seq<A> {
    if s.len() <= m {
        s
    } else {
        s.take(m as int)
    }
}

/// Indices of the first `max` options matching `q`.
pub open spec fn filtered_indices(opts: Seq<AcView>, q: Seq<char>, max: nat) -> Seq<int> {
    at_most(matching_upto(opts, q, opts.len() as int), max)
}

/// Each index of `matching_upto(opts, q, n)` is a matching option below
/// `n`.
pub proof fn lemma_matching_upto(opts: Seq<AcView>, q: Seq<char>, n: int)
    requires
        0 <= n <= opts.len(),
    ensures
        forall|k: int|
            0 <= k < matching_upto(opts, q, n).len() ==> 0 <= #[trigger] matching_upto(opts, q, n)[k]
                < n && matches_query(opts[matching_upto(opts, q, n)[k]], q),
    decreases n,
{
    if n > 0 {
        lemma_matching_upto(opts, q, n - 1);
        let prev = matching_upto(opts, q, n - 1);
        assert forall|k: int| 0 <= k < matching_upto(opts, q, n).len() implies 0
            <= #[trigger] matching_upto(opts, q, n)[k] < n && matches_query(
            opts[matching_upto(opts, q, n)[k]],
            q,
        ) by {
            if k < prev.len() {
                assert(matching_upto(opts, q, n)[k] == prev[k]);
            }
        }
    }
}

/// At most `max` options are shown, each of them matching the query.
pub proof fn law_filtered_bounded(opts: Seq<AcView>, q: Seq<char>, max: nat)
    ensures
        filtered_indices(opts, q, max).len() <= max,
        forall|k: int|
            0 <= k < filtered_indices(opts, q, max).len() ==> 0 <= #[trigger] filtered_indices(
                opts,
                q,
                max,
            )[k] < opts.len() && matches_query(opts[filtered_indices(opts, q, max)[k]], q),
{
    lemma_matching_upto(opts, q, opts.len() as int);
    let m = matching_upto(opts, q, opts.len() as int);
    assert forall|k: int| 0 <= k < filtered_indices(opts, q, max).len() implies 0
        <= #[trigger] filtered_indices(opts, q, max)[k] < opts.len() && matches_query(
        opts[filtered_indices(opts, q, max)[k]],
        q,
    ) by {
        assert(filtered_indices(opts, q, max)[k] == m[k]);
    }
}

/// Returned by [`autocomplete`].
#[derive(Debug, Clone)]
pub struct AutocompleteSelected {
    value: String,
    label: String,
}

impl AutocompleteSelected {
    pub closed spec fn value_view(&self) -> Seq<char> {
        self.value@
    }

    pub closed spec fn label_view(&self) -> Seq<char> {
        self.label@
    }

    /// Machine value of the chosen option.
    pub fn value(&self) -> (r: &str)
        ensures
            r@ == self.value_view(),
    {
        self.value.as_str()
    }

    /// Human label of the chosen option.
    pub fn label(&self) -> (r: &str)
        ensures
            r@ == self.label_view(),
    {
        self.label.as_str()
    }
}

/// Builder returned by [`autocomplete()`].
pub struct AutocompletePrompt {
    label: String,
    options: Vec<AcOption>,
    placeholder: Option<String>,
    max_items: usize,
    query: String,
    cur: usize,
    settings: Settings,
}

/// Pick one option, filtered live as the user types.
pub fn autocomplete(label: &str) -> (r: AutocompletePrompt)
    ensures
        r.label_view() == label@,
        r.options_view() == Seq::<AcView>::empty(),
        r.placeholder_view() == None::<Seq<char>>,
        r.max_items_view() == 8,
        r.query_view() == Seq::<char>::empty(),
        r.cur() == 0,
        r.settings_view().is_default_flags(),
{
    AutocompletePrompt {
        label: owned(label),
        options: Vec::new(),
        placeholder: None,
        max_items: 8,
        query: String::new(),
        cur: 0,
        settings: Settings::default(),
    }
}

/// The key help under the list.
pub open spec fn search_help() -> Seq<char> {
    "↑/↓ to navigate · Enter to confirm · type to search"@
}

/// The search row: the query in the input colour, or the placeholder.
pub open spec fn search_row(query: Seq<char>, placeholder: Option<Seq<char>>, s: &Settings) -> Seq<char> {
    let start = painted(crate::styles::spec_dim(), BAR@) + "  "@ + painted(
        crate::styles::spec_dim(),
        "Search:"@,
    ) + " "@;
    if query.len() == 0 {
        start + painted(
            crate::styles::spec_dim(),
            match placeholder {
                Some(p) => p,
                None => "Type to search..."@,
            },
        )
    } else {
        start + painted(s.colors.input, query)
    }
}

/// One filtered option row.
pub open spec fn ac_row(o: AcView, active: bool, s: &Settings) -> Seq<char> {
    let bullet = if active {
        painted(crate::styles::spec_ok(), RADIO_ON@)
    } else {
        painted(crate::styles::spec_dim(), RADIO_OFF@)
    };
    let text = if active {
        painted(crate::styles::spec_white(), o.1)
    } else {
        painted(crate::styles::spec_dim(), o.1)
    };
    let sfx = if active {
        spec_hint_inline(o.2, s)
    } else {
        painted(crate::styles::spec_dim(), spec_hint_inline(o.2, s))
    };
    painted(crate::styles::spec_dim(), BAR@) + "  "@ + bullet + " "@ + text + sfx
}

/// The row shown when nothing matches.
pub open spec fn no_matches_row() -> Seq<char> {
    painted(crate::styles::spec_dim(), BAR@) + "  "@ + painted(crate::styles::spec_dim(), "No matches"@)
}

impl AutocompletePrompt {
    pub closed spec fn label_view(&self) -> Seq<char> {
        self.label@
    }

    pub closed spec fn options_view(&self) -> Seq<AcView> {
        self.options@.map_values(|o: AcOption| ac_view(o))
    }

    pub closed spec fn placeholder_view(&self) -> Option<Seq<char>> {
        opt_seq(self.placeholder)
    }

    pub closed spec fn max_items_view(&self) -> usize {
        self.max_items
    }

    /// What the user has typed.
    pub closed spec fn query_view(&self) -> Seq<char> {
        self.query@
    }

    /// The highlighted row among the filtered options.
    pub closed spec fn cur(&self) -> usize {
        self.cur
    }

    pub closed spec fn settings_view(&self) -> Settings {
        self.settings
    }

    /// Indices of the options shown for the current query.
    pub open spec fn filtered(&self) -> Seq<int> {
        filtered_indices(self.options_view(), lowercase(self.query_view()), self.max_items_view() as nat)
    }

    /// The highlight is on a shown option, or on the first row.
    pub open spec fn highlight_ok(&self) -> bool {
        self.cur() == 0 || self.cur() < self.filtered().len()
    }

    /// Append an option.
    pub fn option(self, value: &str, label: &str) -> (r: AutocompletePrompt)
        ensures
            r.options_view() == self.options_view().push((value@, label@, None::<Seq<char>>)),
            r.label_view() == self.label_view(),
            r.placeholder_view() == self.placeholder_view(),
            r.max_items_view() == self.max_items_view(),
            r.query_view() == self.query_view(),
            r.cur() == self.cur(),
            r.settings_view() == self.settings_view(),
    {
        let mut s = self;
        s.options.push(AcOption { value: owned(value), label: owned(label), hint: None });
        proof {
            assert(s.options@.map_values(|o: AcOption| ac_view(o)) =~= self.options_view().push(
                (value@, label@, None::<Seq<char>>),
            ));
        }
        s
    }

    /// Attach a hint to the most recently added option, if any.
    pub fn hint(self, text: &str) -> (r: AutocompletePrompt)
        ensures
            self.options_view().len() == 0 ==> r.options_view() == self.options_view(),
            self.options_view().len() > 0 ==> r.options_view() == self.options_view().update(
                self.options_view().len() - 1,
                (self.options_view().last().0, self.options_view().last().1, Some(text@)),
            ),
            r.label_view() == self.label_view(),
            r.placeholder_view() == self.placeholder_view(),
            r.max_items_view() == self.max_items_view(),
            r.query_view() == self.query_view(),
            r.cur() == self.cur(),
            r.settings_view() == self.settings_view(),
    {
        let mut s = self;
        if s.options.len() > 0 {
            let last = s.options.pop().unwrap();
            s.options.push(AcOption { value: last.value, label: last.label, hint: Some(owned(text)) });
            proof {
                assert(s.options@.map_values(|o: AcOption| ac_view(o)) =~= self.options_view().update(
                    self.options_view().len() - 1,
                    (self.options_view().last().0, self.options_view().last().1, Some(text@)),
                ));
            }
        }
        s
    }

    /// Placeholder shown in the search row before the user types.
    pub fn placeholder(self, p: &str) -> (r: AutocompletePrompt)
        ensures
            r.placeholder_view() == Some(p@),
            r.options_view() == self.options_view(),
            r.label_view() == self.label_view(),
            r.max_items_view() == self.max_items_view(),
            r.query_view() == self.query_view(),
            r.cur() == self.cur(),
            r.settings_view() == self.settings_view(),
    {
        AutocompletePrompt { placeholder: Some(owned(p)), ..self }
    }

    /// Maximum number of filtered rows shown at once (at least 1).
    pub fn max_items(self, n: usize) -> (r: AutocompletePrompt)
        ensures
            r.max_items_view() == if n >= 1 { n } else { 1 },
            r.options_view() == self.options_view(),
            r.label_view() == self.label_view(),
            r.placeholder_view() == self.placeholder_view(),
            r.query_view() == self.query_view(),
            r.cur() == self.cur(),
            r.settings_view() == self.settings_view(),
    {
        AutocompletePrompt { max_items: if n >= 1 { n } else { 1 }, ..self }
    }

    /// Render and read key behaviour with `s` in place of the defaults.
    pub fn settings(self, s: Settings) -> (r: AutocompletePrompt)
        ensures
            r.settings_view() == s,
            r.options_view() == self.options_view(),
            r.label_view() == self.label_view(),
            r.placeholder_view() == self.placeholder_view(),
            r.max_items_view() == self.max_items_view(),
            r.query_view() == self.query_view(),
            r.cur() == self.cur(),
    {
        AutocompletePrompt { settings: s, ..self }
    }

    /// The options shown for the current query: those whose lowercased
    /// label or value contains the lowercased query (all of them for an
    /// empty query), at most `max_items` of them, as indices.
    pub fn filter(&self) -> (r: Vec<usize>)
        ensures
            r@.map_values(|i: usize| i as int) == self.filtered(),
    {
        let ghost opts = self.options_view();
        let q = to_lowercase(self.query.as_str());
        let ghost qv = lowercase(self.query@);
        let max = self.max_items;
        let mut out: Vec<usize> = Vec::new();
        let mut i: usize = 0;
        while i < self.options.len()
            invariant
                opts == self.options_view(),
                q@ == qv,
                max == self.max_items_view(),
                0 <= i <= self.options@.len(),
                out@.map_values(|k: usize| k as int) == at_most(matching_upto(opts, qv, i as int), max as nat),
            decreases self.options@.len() - i,
        {
            let o = &self.options[i];
            proof {
                assert(ac_view(self.options@[i as int]) == opts[i as int]);
            }
            let hit = if q.as_str().is_empty() {
                true
            } else {
                let l = to_lowercase(o.label.as_str());
                if contains_exec(l.as_str(), q.as_str()) {
                    true
                } else {
                    let v = to_lowercase(o.value.as_str());
                    contains_exec(v.as_str(), q.as_str())
                }
            };
            proof {
                assert(hit == matches_query(opts[i as int], qv));
            }
            let ghost m = matching_upto(opts, qv, i as int);
            if hit && out.len() < max {
                let ghost prev = out@;
                out.push(i);
                proof {
                    assert(out@.map_values(|k: usize| k as int) =~= prev.map_values(|k: usize| k as int).push(
                        i as int,
                    ));
                }
            }
            proof {
                if hit {
                    assert(matching_upto(opts, qv, i + 1) == m.push(i as int));
                    if m.len() >= max {
                        assert(m.push(i as int).take(max as int) =~= m.take(max as int));
                    }
                }
                assert(out@.map_values(|k: usize| k as int) =~= at_most(
                    matching_upto(opts, qv, i + 1),
                    max as nat,
                ));
            }
            i += 1;
        }
        out
    }

    /// The number of options.
    pub fn option_count(&self) -> (r: usize)
        ensures
            r == self.options_view().len(),
    {
        self.options.len()
    }

    /// The options as (label, hint).
    pub open spec fn listing_items(&self) -> Seq<(Seq<char>, Option<Seq<char>>)> {
        self.options_view().map_values(|o: AcView| (o.1, o.2))
    }

    /// The rows printed before a fallback answer is read: the label and
    /// every option, numbered.
    pub fn fallback_rows(&self) -> (r: Vec<String>)
        ensures
            r@.map_values(|x: String| x@) == numbered_listing(self.label_view(), self.listing_items()),
    {
        let mut out: Vec<String> = Vec::new();
        let mut head = owned("  ");
        proof {
            reveal_strlit("  ");
        }
        head.append(self.label.as_str());
        out.push(head);
        let ghost items = self.listing_items();
        let mut i: usize = 0;
        while i < self.options.len()
            invariant
                items == self.listing_items(),
                items.len() == self.options@.len(),
                0 <= i <= items.len(),
                out@.map_values(|x: String| x@) == seq!["  "@ + self.label_view()] + Seq::new(
                    i as nat,
                    |k: int| numbered_row((k + 1) as nat, items[k].0, items[k].1),
                ),
            decreases items.len() - i,
        {
            let o = &self.options[i];
            proof {
                assert(ac_view(self.options@[i as int]) == self.options_view()[i as int]);
                assert(items[i as int] == (o.label@, opt_seq(o.hint)));
            }
            let row = numbered_row_exec(i + 1, o.label.as_str(), &o.hint);
            let ghost prev = out@.map_values(|x: String| x@);
            out.push(row);
            proof {
                assert(out@.map_values(|x: String| x@) =~= prev.push(row@));
                assert(out@.map_values(|x: String| x@) =~= seq!["  "@ + self.label_view()] + Seq::new(
                    (i + 1) as nat,
                    |k: int| numbered_row((k + 1) as nat, items[k].0, items[k].1),
                ));
            }
            i += 1;
        }
        out
    }

    /// The question of the fallback: `  Enter number (1–N): `.
    pub fn fallback_ask(&self) -> (r: String)
        ensures
            r@ == ask_number_text(self.options_view().len()),
    {
        ask_number(self.options.len())
    }

    /// The answer to a line that picks no option.
    pub fn fallback_retry(&self) -> (r: String)
        ensures
            r@ == retry_number_text(self.options_view().len()),
    {
        retry_number(self.options.len())
    }

    /// The option picked by the number typed on a fallback line (1 for
    /// the first option), if the line reads as one.
    pub fn pick_number(&self, line: &str) -> (r: Option<AutocompleteSelected>)
        ensures
            match parsed_usize(line@) {
                Some(n) => if 1 <= n <= self.options_view().len() {
                    r matches Some(sel) && sel.value_view() == self.options_view()[n - 1].0
                        && sel.label_view() == self.options_view()[n - 1].1
                } else {
                    r is None
                },
                None => r is None,
            },
    {
        match parse_usize(line) {
            Some(n) => {
                if n >= 1 && n <= self.options.len() {
                    let opt = &self.options[n - 1];
                    proof {
                        assert(ac_view(self.options@[n - 1]) == self.options_view()[n - 1]);
                    }
                    Some(AutocompleteSelected { value: opt.value.clone(), label: opt.label.clone() })
                } else {
                    None
                }
            },
            None => None,
        }
    }

    /// The option rows for the current query.
    pub open spec fn spec_option_rows(&self) -> Seq<Seq<char>> {
        let f = self.filtered();
        Seq::new(
            f.len(),
            |k: int| ac_row(self.options_view()[f[k]], k == self.cur(), &self.settings_view()),
        )
    }

    /// The rows of the live frame.
    pub open spec fn spec_render(&self) -> Seq<Seq<char>> {
        let s = self.settings_view();
        seq![
            spec_label_state(self.label_view(), false, &s),
            spec_hint(Seq::empty(), &s),
            search_row(self.query_view(), self.placeholder_view(), &s),
        ] + (if self.filtered().len() == 0 {
            seq![no_matches_row()]
        } else {
            self.spec_option_rows()
        }) + seq![spec_hint(search_help(), &s), spec_frame_bot(None, &s)]
    }
}

fn search_exec(query: &str, placeholder: &Option<String>, s: &Settings) -> (r: String)
    ensures
        r@ == search_row(query@, opt_seq(*placeholder), s),
{
    let mut out = paint(dim(), BAR);
    out.append("  ");
    let sl = "Search:";
    proof {
        reveal_strlit("Search:");
    }
    let l = paint(dim(), sl);
    out.append(l.as_str());
    out.append(" ");
    if query.is_empty() {
        let p = match placeholder {
            Some(p) => paint(dim(), p.as_str()),
            None => {
                let d = "Type to search...";
                proof {
                    reveal_strlit("Type to search...");
                }
                paint(dim(), d)
            },
        };
        out.append(p.as_str());
    } else {
        let q = paint(s.colors.input, query);
        out.append(q.as_str());
    }
    out
}

fn ac_row_exec(o: &AcOption, active: bool, s: &Settings) -> (r: String)
    ensures
        r@ == ac_row(ac_view(*o), active, s),
{
    let bullet = if active {
        paint(ok(), RADIO_ON)
    } else {
        paint(dim(), RADIO_OFF)
    };
    let text = if active {
        paint(white(), o.label.as_str())
    } else {
        paint(dim(), o.label.as_str())
    };
    let h: Option<&str> = match &o.hint {
        Some(x) => Some(x.as_str()),
        None => None,
    };
    proof {
        assert(super::theme::opt_view(h) == opt_seq(o.hint));
    }
    let sfx = hint_inline(h, s);
    let sfx2 = if active {
        sfx
    } else {
        paint(dim(), sfx.as_str())
    };
    let mut out = paint(dim(), BAR);
    out.append("  ");
    out.append(bullet.as_str());
    out.append(" ");
    out.append(text.as_str());
    out.append(sfx2.as_str());
    out
}

impl Prompt for AutocompletePrompt {
    type Output = AutocompleteSelected;

    open spec fn handle_ok(&self, key: Key) -> bool {
        self.highlight_ok()
    }

    open spec fn render_ok(&self) -> bool {
        true
    }

    /// A character extends the query and a backspace shortens it (both
    /// move the highlight back to the first row); Up/Down move within the
    /// shown options; Enter picks the highlighted option (nothing happens
    /// when none is shown); Escape and Ctrl-C cancel.
    fn handle(&mut self, key: Key) -> (r: Step<AutocompleteSelected>)
        ensures
            final(self).options_view() == old(self).options_view(),
            final(self).label_view() == old(self).label_view(),
            final(self).placeholder_view() == old(self).placeholder_view(),
            final(self).max_items_view() == old(self).max_items_view(),
            final(self).settings_view() == old(self).settings_view(),
            final(self).highlight_ok(),
            ({
                let p = old(self).cur();
                let q = old(self).query_view();
                let f = old(self).filtered();
                match key {
                    Key::Char(c) => r is Continue && final(self).query_view() == q.push(c)
                        && final(self).cur() == 0,
                    Key::Backspace => r is Continue && final(self).query_view() == (if q.len() > 0 {
                        q.drop_last()
                    } else {
                        q
                    }) && final(self).cur() == 0,
                    Key::Up => r is Continue && final(self).query_view() == q && final(self).cur()
                        == if p > 0 {
                        p - 1
                    } else {
                        p as int
                    },
                    Key::Down => r is Continue && final(self).query_view() == q && final(self).cur()
                        == if p + 1 < f.len() {
                        p + 1
                    } else {
                        p as int
                    },
                    Key::Enter => final(self).query_view() == q && final(self).cur() == p && if f.len()
                        == 0 {
                        r is Continue
                    } else {
                        r matches Step::Submit(sel) && sel.value_view() == old(
                            self,
                        ).options_view()[f[p as int]].0 && sel.label_view() == old(
                            self,
                        ).options_view()[f[p as int]].1
                    },
                    Key::Escape | Key::Interrupt => r is Cancel && final(self).query_view() == q
                        && final(self).cur() == p,
                    _ => r is Continue && final(self).query_view() == q && final(self).cur() == p,
                }
            }),
    {
        match key {
            Key::Char(c) => {
                push_char(&mut self.query, c);
                self.cur = 0;
                Step::Continue
            },
            Key::Backspace => {
                let v = chars_of(self.query.as_str());
                if v.len() > 0 {
                    self.query = string_of_range(&v, 0, v.len() - 1);
                    proof {
                        assert(v@.subrange(0, v@.len() - 1) =~= v@.drop_last());
                    }
                }
                self.cur = 0;
                Step::Continue
            },
            Key::Up => {
                if self.cur > 0 {
                    self.cur = self.cur - 1;
                }
                Step::Continue
            },
            Key::Down => {
                let f = self.filter();
                if f.len() > 0 && self.cur < f.len() - 1 {
                    self.cur = self.cur + 1;
                }
                Step::Continue
            },
            Key::Enter => {
                let f = self.filter();
                if f.len() == 0 {
                    Step::Continue
                } else {
                    let ghost opts = self.options_view();
                    proof {
                        lemma_matching_upto(opts, lowercase(self.query@), opts.len() as int);
                        assert(f@[self.cur as int] as int == self.filtered()[self.cur as int]);
                    }
                    let k = f[self.cur];
                    let opt = &self.options[k];
                    proof {
                        assert(ac_view(self.options@[k as int]) == opts[k as int]);
                    }
                    Step::Submit(AutocompleteSelected { value: opt.value.clone(), label: opt.label.clone() })
                }
            },
            Key::Escape | Key::Interrupt => Step::Cancel,
            _ => Step::Continue,
        }
    }

    /// Label, spacer, search row, the filtered options (or `No matches`),
    /// key help, bottom row.
    fn render(&self, _ctx: RenderCtx) -> (r: Frame)
        ensures
            rows(r) == self.spec_render(),
    {
        let s = &self.settings;
        let mut f: Frame = Vec::new();
        f.push(label(self.label.as_str(), s));
        f.push(hint(empty_str(), s));
        f.push(search_exec(self.query.as_str(), &self.placeholder, s));
        let ghost head = rows(f);
        assert(head =~= seq![
            spec_label_state(self.label_view(), false, s),
            spec_hint(Seq::empty(), s),
            search_row(self.query_view(), self.placeholder_view(), s),
        ]);
        let idx = self.filter();
        let ghost opts = self.options_view();
        proof {
            lemma_matching_upto(opts, lowercase(self.query@), opts.len() as int);
        }
        if idx.len() == 0 {
            let nm = "No matches";
            proof {
                reveal_strlit("No matches");
            }
            let mut row = paint(dim(), BAR);
            row.append("  ");
            let t = paint(dim(), nm);
            row.append(t.as_str());
            f.push(row);
        } else {
            let mut k: usize = 0;
            while k < idx.len()
                invariant
                    opts == self.options_view(),
                    *s == self.settings_view(),
                    idx@.map_values(|i: usize| i as int) == self.filtered(),
                    forall|j: int|
                        0 <= j < self.filtered().len() ==> 0 <= #[trigger] self.filtered()[j]
                            < opts.len(),
                    0 <= k <= idx@.len(),
                    head == seq![
                        spec_label_state(self.label_view(), false, s),
                        spec_hint(Seq::empty(), s),
                        search_row(self.query_view(), self.placeholder_view(), s),
                    ],
                    rows(f) == head + self.spec_option_rows().take(k as int),
                decreases idx@.len() - k,
            {
                let i = idx[k];
                proof {
                    assert(self.filtered()[k as int] == i as int);
                    assert(ac_view(self.options@[i as int]) == opts[i as int]);
                }
                let row = ac_row_exec(&self.options[i], k == self.cur, s);
                let ghost prev = f@;
                f.push(row);
                proof {
                    assert(rows(f) =~= prev.map_values(|x: String| x@).push(row@));
                    assert(self.spec_option_rows().take(k + 1) =~= self.spec_option_rows().take(
                        k as int,
                    ).push(row@));
                }
                k += 1;
            }
            proof {
                assert(self.spec_option_rows().take(idx@.len() as int) =~= self.spec_option_rows());
            }
        }
        let help = "↑/↓ to navigate · Enter to confirm · type to search";
        proof {
            reveal_strlit("↑/↓ to navigate · Enter to confirm · type to search");
        }
        f.push(hint(help, s));
        f.push(frame_bot(None, s));
        proof {
            assert(rows(f) =~= self.spec_render());
        }
        f
    }

    /// Question, the chosen label, connector.
    fn render_answered(&self, value: &AutocompleteSelected) -> (r: Frame)
        ensures
            rows(r) == split_on(
                spec_answered(self.label_view(), value.label_view(), &self.settings_view()),
                crlf(),
            ),
    {
        answered_rows(self.label.as_str(), value.label.as_str(), &self.settings)
    }
}

} // verus!

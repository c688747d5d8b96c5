//! End-of-run summary block: status badges and key/value stats between two
//! rules, the keys right-aligned per section.

use vstd::prelude::*;
use vstd::utf8::encode_utf8;
use crate::strutil::{fill, fill_string, owned, spaces, spaces_string};
use crate::styles::{
    badge_green, badge_yellow, dim, ok, paint, painted, spec_badge_green, spec_badge_yellow, spec_dim,
    spec_ok, spec_yellow, yellow,
};

verus! {

broadcast use vstd::string::group_string_axioms;

/// One line of a summary section.
pub enum SummaryEntry {
    /// Green ` DONE ` badge with message.
    Done(String),
    /// Yellow ` WARN ` badge with message.
    Warn(String),
    /// Key/value stat; keys are right-aligned per section.
    Stat { key: String, val: String },
    /// Blank line separator.
    Blank,
}

/// An alignment section.
pub struct SummarySection {
    entries: Vec<SummaryEntry>,
}

/// Builder for the end-of-run summary block.
pub struct Summary {
    sections: Vec<SummarySection>,
}

/// An entry as the text it holds.
pub enum EntryView {
    Done(Seq<char>),
    Warn(Seq<char>),
    Stat(Seq<char>, Seq<char>),
    Blank,
}

pub open spec fn entry_view(e: SummaryEntry) -> EntryView {
    match e {
        SummaryEntry::Done(m) => EntryView::Done(m@),
        SummaryEntry::Warn(m) => EntryView::Warn(m@),
        SummaryEntry::Stat { key, val } => EntryView::Stat(key@, val@),
        SummaryEntry::Blank => EntryView::Blank,
    }
}

/// The length of `s` in UTF-8 bytes, as `str::len` reports it.
pub open spec fn byte_len(s: Seq<char>) -> nat {
    (encode_utf8(s).len() as usize) as nat
}

/// The widest key (in bytes) among the stats of `es[..n]`.
pub open spec fn max_stat_key(es: Seq<EntryView>, n: int) -> nat
    decreases n,
{
    if n <= 0 {
        0
    } else {
        let rest = max_stat_key(es, n - 1);
        match es[n - 1] {
            EntryView::Stat(key, val) => if byte_len(key) > rest {
                byte_len(key)
            } else {
                rest
            },
            _ => rest,
        }
    }
}

proof fn lemma_max_stat_key(es: Seq<EntryView>, n: int, k: int)
    requires
        0 <= k < n <= es.len(),
    ensures
        es[k] matches EntryView::Stat(key, val) ==> byte_len(key) <= max_stat_key(es, n),
    decreases n,
{
    if k < n - 1 {
        lemma_max_stat_key(es, n - 1, k);
    }
}

/// One printed row of an entry in a section whose widest key is `width`.
pub open spec fn entry_text(e: EntryView, width: nat) -> Seq<char> {
    match e {
        EntryView::Done(msg) => "   "@ + painted(spec_badge_green(), " DONE "@) + "  "@ + painted(
            spec_ok(),
            msg,
        ),
        EntryView::Warn(msg) => "   "@ + painted(spec_badge_yellow(), " WARN "@) + "  "@ + painted(
            spec_yellow(),
            msg,
        ),
        EntryView::Stat(key, val) => "   "@ + spaces((width - byte_len(key)) as nat) + painted(
            spec_dim(),
            key,
        ) + "   "@ + val,
        EntryView::Blank => Seq::empty(),
    }
}

/// The rows of one section.
pub open spec fn section_text(es: Seq<EntryView>) -> Seq<Seq<char>> {
    let w = max_stat_key(es, es.len() as int);
    es.map_values(|e: EntryView| entry_text(e, w))
}

/// The rows of the sections `ss[..n]`.
pub open spec fn sections_text(ss: Seq<Seq<EntryView>>, n: int) -> Seq<Seq<char>>
    decreases n,
{
    if n <= 0 {
        Seq::empty()
    } else {
        sections_text(ss, n - 1) + section_text(ss[n - 1])
    }
}

/// The dimmed rule, `w` cells wide.
pub open spec fn rule_text(w: nat) -> Seq<char> {
    painted(spec_dim(), fill('─', w))
}

/// The whole block for a terminal `term_width` wide: a rule (at most 80
/// wide) with blank rows around it, the sections, the rule again.
pub open spec fn summary_text(ss: Seq<Seq<EntryView>>, term_width: nat) -> Seq<Seq<char>> {
    let w = if term_width <= 80 { term_width } else { 80 };
    let blank = Seq::<char>::empty();
    seq![blank, " "@ + rule_text(w), blank] + sections_text(ss, ss.len() as int) + seq![
        blank,
        " "@ + rule_text(w),
        blank,
    ]
}

spec fn entries_view(s: SummarySection) -> Seq<EntryView> {
    s.entries@.map_values(|e: SummaryEntry| entry_view(e))
}

impl Summary {
    /// The entries of each section.
    pub closed spec fn sections_view(&self) -> Seq<Seq<EntryView>> {
        self.sections@.map_values(|s: SummarySection| entries_view(s))
    }

    /// There is always a current (last) section.
    pub open spec fn wf(&self) -> bool {
        self.sections_view().len() >= 1
    }

    /// `self` with `e` added to the current section.
    pub open spec fn with_entry(&self, e: EntryView) -> Seq<Seq<EntryView>> {
        self.sections_view().update(
            self.sections_view().len() - 1,
            self.sections_view().last().push(e),
        )
    }

    /// An empty summary with one section.
    pub fn new() -> (r: Summary)
        ensures
            r.sections_view() == seq![Seq::<EntryView>::empty()],
    {
        let mut sections: Vec<SummarySection> = Vec::new();
        let first = SummarySection { entries: Vec::new() };
        proof {
            assert(entries_view(first) =~= Seq::<EntryView>::empty());
        }
        sections.push(first);
        let r = Summary { sections };
        proof {
            assert(r.sections_view() =~= seq![Seq::<EntryView>::empty()]);
        }
        r
    }

    fn add(self, e: SummaryEntry) -> (r: Summary)
        requires
            self.wf(),
        ensures
            r.sections_view() == self.with_entry(entry_view(e)),
    {
        let mut s = self;
        let mut cur = s.sections.pop().unwrap();
        let ghost old_cur = entries_view(cur);
        cur.entries.push(e);
        proof {
            assert(entries_view(cur) =~= old_cur.push(entry_view(e)));
        }
        s.sections.push(cur);
        proof {
            assert(s.sections_view() =~= self.with_entry(entry_view(e)));
        }
        s
    }

    /// Add a green `DONE` status line.
    pub fn done(self, msg: &str) -> (r: Summary)
        requires
            self.wf(),
        ensures
            r.sections_view() == self.with_entry(EntryView::Done(msg@)),
    {
        self.add(SummaryEntry::Done(owned(msg)))
    }

    /// Add a yellow `WARN` status line.
    pub fn warn(self, msg: &str) -> (r: Summary)
        requires
            self.wf(),
        ensures
            r.sections_view() == self.with_entry(EntryView::Warn(msg@)),
    {
        self.add(SummaryEntry::Warn(owned(msg)))
    }

    /// Add a key/value stat line.
    pub fn stat(self, key: &str, val: &str) -> (r: Summary)
        requires
            self.wf(),
        ensures
            r.sections_view() == self.with_entry(EntryView::Stat(key@, val@)),
    {
        self.add(SummaryEntry::Stat { key: owned(key), val: owned(val) })
    }

    /// Add a blank line within the current section.
    pub fn blank(self) -> (r: Summary)
        requires
            self.wf(),
        ensures
            r.sections_view() == self.with_entry(EntryView::Blank),
    {
        self.add(SummaryEntry::Blank)
    }

    /// Start a new alignment section.
    pub fn section(self) -> (r: Summary)
        ensures
            r.sections_view() == self.sections_view().push(Seq::<EntryView>::empty()),
    {
        let mut s = self;
        let fresh = SummarySection { entries: Vec::new() };
        proof {
            assert(entries_view(fresh) =~= Seq::<EntryView>::empty());
        }
        s.sections.push(fresh);
        proof {
            assert(s.sections_view() =~= self.sections_view().push(Seq::<EntryView>::empty()));
        }
        s
    }

    /// The rows of the block for a terminal `term_width` wide.
    pub fn render(&self, term_width: usize) -> (r: Vec<String>)
        ensures
            r@.map_values(|x: String| x@) == summary_text(self.sections_view(), term_width as nat),
    {
        let w = if term_width <= 80 { term_width } else { 80 };
        let rule_fill = fill_string('─', w);
        let rule = paint(dim(), rule_fill.as_str());
        let mut rule_row = owned(" ");
        rule_row.append(rule.as_str());
        proof {
            reveal_strlit(" ");
        }
        let mut out: Vec<String> = Vec::new();
        out.push(String::new());
        out.push(rule_row.clone());
        out.push(String::new());
        let ghost head = out@.map_values(|x: String| x@);
        assert(head =~= seq![Seq::<char>::empty(), rule_row@, Seq::<char>::empty()]);
        let ghost ss = self.sections_view();
        let mut i: usize = 0;
        while i < self.sections.len()
            invariant
                ss == self.sections_view(),
                0 <= i <= ss.len(),
                w == (if term_width <= 80 { term_width } else { 80 }),
                rule_row@ == " "@ + rule_text(w as nat),
                head == seq![Seq::<char>::empty(), rule_row@, Seq::<char>::empty()],
                out@.map_values(|x: String| x@) == head + sections_text(ss, i as int),
            decreases ss.len() - i,
        {
            let sec = &self.sections[i];
            let ghost es = entries_view(*sec);
            proof {
                assert(ss[i as int] == es);
            }
            let mut mk: usize = 0;
            let mut j: usize = 0;
            while j < sec.entries.len()
                invariant
                    es == entries_view(*sec),
                    0 <= j <= es.len(),
                    mk == max_stat_key(es, j as int),
                decreases es.len() - j,
            {
                proof {
                    assert(entry_view(sec.entries@[j as int]) == es[j as int]);
                }
                match &sec.entries[j] {
                    SummaryEntry::Stat { key, val } => {
                        let kl = key.as_str().len();
                        if kl > mk {
                            mk = kl;
                        }
                    },
                    _ => {},
                }
                j += 1;
            }
            let ghost before = out@.map_values(|x: String| x@);
            let mut k: usize = 0;
            while k < sec.entries.len()
                invariant
                    es == entries_view(*sec),
                    mk == max_stat_key(es, es.len() as int),
                    0 <= k <= es.len(),
                    out@.map_values(|x: String| x@) == before + es.take(k as int).map_values(
                        |e: EntryView| entry_text(e, mk as nat),
                    ),
                decreases es.len() - k,
            {
                proof {
                    assert(entry_view(sec.entries@[k as int]) == es[k as int]);
                    lemma_max_stat_key(es, es.len() as int, k as int);
                }
                let row = match &sec.entries[k] {
                    SummaryEntry::Done(msg) => {
                        let mut r = owned("   ");
                        proof {
                            reveal_strlit("   ");
                        }
                        let b = paint(badge_green(), " DONE ");
                        r.append(b.as_str());
                        r.append("  ");
                        let m = paint(ok(), msg.as_str());
                        r.append(m.as_str());
                        r
                    },
                    SummaryEntry::Warn(msg) => {
                        let mut r = owned("   ");
                        proof {
                            reveal_strlit("   ");
                        }
                        let b = paint(badge_yellow(), " WARN ");
                        r.append(b.as_str());
                        r.append("  ");
                        let m = paint(yellow(), msg.as_str());
                        r.append(m.as_str());
                        r
                    },
                    SummaryEntry::Stat { key, val } => {
                        let mut r = owned("   ");
                        proof {
                            reveal_strlit("   ");
                        }
                        let pad = spaces_string(mk - key.as_str().len());
                        r.append(pad.as_str());
                        let d = paint(dim(), key.as_str());
                        r.append(d.as_str());
                        r.append("   ");
                        r.append(val.as_str());
                        r
                    },
                    SummaryEntry::Blank => String::new(),
                };
                let ghost prev = out@;
                out.push(row);
                proof {
                    assert(out@.map_values(|x: String| x@) =~= prev.map_values(|x: String| x@).push(row@));
                    assert(es.take(k + 1) =~= es.take(k as int).push(es[k as int]));
                }
                k += 1;
            }
            proof {
                assert(es.take(es.len() as int) =~= es);
                assert(out@.map_values(|x: String| x@) =~= head + sections_text(ss, i + 1));
            }
            i += 1;
        }
        out.push(String::new());
        out.push(rule_row);
        out.push(String::new());
        proof {
            assert(out@.map_values(|x: String| x@) =~= summary_text(ss, term_width as nat));
        }
        out
    }
}

impl Default for Summary {
    fn default() -> (r: Summary)
        ensures
            r.sections_view() == seq![Seq::<EntryView>::empty()],
    {
        Summary::new()
    }
}

} // verus!

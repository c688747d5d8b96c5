//! Filesystem path picker with Tab completion.
//!
//! The prompt does not read the disk itself: before each key and each
//! frame the caller hands it the directory listing for the directory part
//! of the typed path ([`PathPrompt::set_listing`]), and whether the typed
//! path is a directory. The prompt picks, orders and shows the
//! completions and decides what each key does.

use vstd::prelude::*;
use crate::strutil::{
    chars_of, has_prefix, lemma_lex_less_order, lex_less, owned, push_char, rfind, rfind_exec,
    split_on, starts_with_exec, str_less, string_of_range,
};
use crate::styles::{paint, painted};
use super::base::{Frame, Key, Prompt, RenderCtx, Step, frame::rows};
use super::settings::Settings;
use super::text::{answered_rows, crlf, opt_seq};
use super::theme::{
    frame_bot, hint, label, spec_answered, spec_frame_bot, spec_hint, spec_label_state, BAR, CURSOR,
};

verus! {

broadcast use vstd::string::group_string_axioms;

/// One directory entry as read from the disk.
pub struct RawEntry {
    /// File name.
    pub name: String,
    /// Full path of the entry.
    pub path: String,
    /// The entry is a directory.
    pub is_dir: bool,
}

/// An entry as (name, path, is_dir).
pub type EntryView = (Seq<char>, Seq<char>, bool);

pub open spec fn raw_view(e: RawEntry) -> EntryView {
    (e.name@, e.path@, e.is_dir)
}

/// Completion order: directories first, then by name.
pub open spec fn entry_le(a: EntryView, b: EntryView) -> bool {
    (a.2 && !b.2) || (a.2 == b.2 && !lex_less(b.0, a.0))
}

/// Every entry is in completion order with every later one.
pub open spec fn in_order(s: Seq<EntryView>) -> bool {
    forall|i: int, j: int| 0 <= i < j < s.len() ==> entry_le(#[trigger] s[i], #[trigger] s[j])
}

/// The entries a listing offers for the typed fragment: names starting
/// with it, and only directories when only directories are accepted.
pub open spec fn offered(e: EntryView, fragment: Seq<char>, dirs_only: bool) -> bool {
    has_prefix(e.0, fragment) && (!dirs_only || e.2)
}

/// The directory part of the typed path (through its last `/`, or `.`
/// when there is none) and the fragment after it.
pub open spec fn split_path(buf: Seq<char>) -> (Seq<char>, Seq<char>) {
    let pos = rfind(buf, seq!['/']);
    if pos >= 0 {
        (buf.subrange(0, pos + 1), buf.subrange(pos + 1, buf.len() as int))
    } else {
        (seq!['.'], buf)
    }
}

/// The directory to list and the fragment to complete.
pub fn split_path_exec(buf: &str) -> (r: (String, String))
    ensures
        (r.0@, r.1@) == split_path(buf@),
{
    let v = chars_of(buf);
    let n = v.len();
    let mut slash: Vec<char> = Vec::new();
    slash.push('/');
    proof {
        assert(slash@ =~= seq!['/']);
    }
    match rfind_exec(&v, &slash) {
        Some(pos) => {
            proof {
                crate::strutil::lemma_rfind_bounds(v@, slash@);
                assert(pos + 1 <= v@.len());
            }
            (string_of_range(&v, 0, pos + 1), string_of_range(&v, pos + 1, n))
        },
        None => {
            let mut dot = String::new();
            push_char(&mut dot, '.');
            proof {
                assert(dot@ =~= seq!['.']);
            }
            (dot, owned(buf))
        },
    }
}

proof fn lemma_entry_le_total(a: EntryView, b: EntryView)
    ensures
        entry_le(a, b) || entry_le(b, a),
{
    lemma_lex_less_order(a.0, b.0, a.0);
}

proof fn lemma_entry_le_trans(a: EntryView, b: EntryView, c: EntryView)
    requires
        entry_le(a, b),
        entry_le(b, c),
    ensures
        entry_le(a, c),
{
    lemma_lex_less_order(c.0, b.0, a.0);
    lemma_lex_less_order(b.0, a.0, c.0);
    lemma_lex_less_order(c.0, a.0, b.0);
}

/// `x` goes before `e`: `e` is not in completion order with `x`.
fn precedes(x: &RawEntry, e: &RawEntry) -> (r: bool)
    ensures
        r == !entry_le(raw_view(*e), raw_view(*x)),
{
    if x.is_dir != e.is_dir {
        x.is_dir
    } else {
        str_less(x.name.as_str(), e.name.as_str())
    }
}

/// Insert `x` after every entry that is not after it.
fn insert_ordered(out: &mut Vec<RawEntry>, x: RawEntry)
    requires
        in_order(old(out)@.map_values(|e: RawEntry| raw_view(e))),
    ensures
        in_order(final(out)@.map_values(|e: RawEntry| raw_view(e))),
        final(out)@.map_values(|e: RawEntry| raw_view(e)).to_multiset() == old(out)@.map_values(
            |e: RawEntry| raw_view(e),
        ).to_multiset().insert(raw_view(x)),
{
    let ghost s = out@.map_values(|e: RawEntry| raw_view(e));
    let ghost xv = raw_view(x);
    let mut k: usize = 0;
    while k < out.len() && !precedes(&x, &out[k])
        invariant
            s == out@.map_values(|e: RawEntry| raw_view(e)),
            xv == raw_view(x),
            in_order(s),
            0 <= k <= s.len(),
            forall|j: int| 0 <= j < k ==> entry_le(#[trigger] s[j], xv),
        decreases s.len() - k,
    {
        proof {
            assert(raw_view(out@[k as int]) == s[k as int]);
        }
        k += 1;
    }
    proof {
        assert forall|j: int| k <= j < s.len() implies entry_le(xv, #[trigger] s[j]) by {
            assert(raw_view(out@[k as int]) == s[k as int]);
            lemma_entry_le_total(s[k as int], xv);
            if j > k {
                lemma_entry_le_trans(xv, s[k as int], s[j]);
            }
        }
    }
    out.insert(k, x);
    proof {
        let t = out@.map_values(|e: RawEntry| raw_view(e));
        assert(t =~= s.insert(k as int, xv));
        assert forall|i: int, j: int| 0 <= i < j < t.len() implies entry_le(
            #[trigger] t[i],
            #[trigger] t[j],
        ) by {
            if i < k && j < k {
            } else if i < k && j == k {
            } else if i < k && j > k {
                assert(t[j] == s[j - 1]);
            } else if i == k {
                assert(t[j] == s[j - 1]);
            } else {
                assert(t[i] == s[i - 1]);
                assert(t[j] == s[j - 1]);
            }
        }
        assert(t.remove(k as int) =~= s);
        vstd::seq_lib::to_multiset_remove(t, k as int);
        assert(t.to_multiset().count(xv) > 0) by {
            assert(t.contains(xv)) by {
                assert(t[k as int] == xv);
            }
            t.to_multiset_ensures();
        }
        assert(t.to_multiset() =~= s.to_multiset().insert(xv));
    }
}

/// A directory entry offered for completion.
struct Entry {
    name: String,
    path: String,
    is_dir: bool,
}

spec fn entry_view(e: Entry) -> EntryView {
    (e.name@, e.path@, e.is_dir)
}

/// Builder returned by [`path()`].
pub struct PathPrompt {
    label: String,
    initial: Option<String>,
    directory: bool,
    max_items: usize,
    buf: String,
    cur: usize,
    listing: Vec<Entry>,
    buf_is_dir: bool,
    settings: Settings,
}

/// Pick a filesystem path with Tab completion.
pub fn path(label: &str) -> (r: PathPrompt)
    ensures
        r.label_view() == label@,
        r.initial_view() == None::<Seq<char>>,
        !r.directory_view(),
        r.max_items_view() == 8,
        r.buf_view() == Seq::<char>::empty(),
        r.cur() == 0,
        r.listing_view() == Seq::<EntryView>::empty(),
        r.settings_view().is_default_flags(),
{
    PathPrompt {
        label: owned(label),
        initial: None,
        directory: false,
        max_items: 8,
        buf: String::new(),
        cur: 0,
        listing: Vec::new(),
        buf_is_dir: false,
        settings: Settings::default(),
    }
}

/// The key help under the completions.
pub open spec fn path_help() -> Seq<char> {
    "Tab to complete · ↑ ↓ to navigate · Enter to confirm"@
}

/// The message for a path that must be, and is not, a directory.
pub open spec fn not_dir_msg() -> Seq<char> {
    "Not a directory"@
}

/// One completion row.
pub open spec fn entry_row(e: EntryView, active: bool, s: &Settings) -> Seq<char> {
    let prefix = if active {
        painted(s.colors.accent, CURSOR@)
    } else {
        painted(s.colors.dim, " "@)
    };
    let style = if active { crate::styles::spec_white() } else { crate::styles::spec_dim() };
    painted(s.colors.dim, BAR@) + "  "@ + prefix + " "@ + painted(style, e.0) + painted(
        s.colors.dim,
        if e.2 { "/"@ } else { " "@ },
    )
}

/// The typed path for the run: the initial path (or `cwd` when none was
/// given) ending in `/`.
pub open spec fn start_buf(initial: Option<Seq<char>>, cwd: Seq<char>) -> Seq<char> {
    let b = match initial {
        Some(i) => i,
        None => cwd,
    };
    if b.len() > 0 && b.last() == '/' {
        b
    } else {
        b.push('/')
    }
}

impl PathPrompt {
    pub closed spec fn label_view(&self) -> Seq<char> {
        self.label@
    }

    pub closed spec fn initial_view(&self) -> Option<Seq<char>> {
        opt_seq(self.initial)
    }

    pub closed spec fn directory_view(&self) -> bool {
        self.directory
    }

    pub closed spec fn max_items_view(&self) -> usize {
        self.max_items
    }

    /// The typed path.
    pub closed spec fn buf_view(&self) -> Seq<char> {
        self.buf@
    }

    /// The highlighted completion.
    pub closed spec fn cur(&self) -> usize {
        self.cur
    }

    /// The completions offered for the typed path.
    pub closed spec fn listing_view(&self) -> Seq<EntryView> {
        self.listing@.map_values(|e: Entry| entry_view(e))
    }

    /// The typed path names a directory, as last reported.
    pub closed spec fn buf_is_dir(&self) -> bool {
        self.buf_is_dir
    }

    pub closed spec fn settings_view(&self) -> Settings {
        self.settings
    }

    /// Everything set by the builder is the same.
    pub open spec fn same_config(a: &PathPrompt, b: &PathPrompt) -> bool {
        &&& a.label_view() == b.label_view()
        &&& a.initial_view() == b.initial_view()
        &&& a.directory_view() == b.directory_view()
        &&& a.max_items_view() == b.max_items_view()
        &&& a.settings_view() == b.settings_view()
    }

    /// Initial path shown (otherwise the current directory).
    pub fn initial(self, v: &str) -> (r: PathPrompt)
        ensures
            r.initial_view() == Some(v@),
            r.label_view() == self.label_view(),
            r.directory_view() == self.directory_view(),
            r.max_items_view() == self.max_items_view(),
            r.settings_view() == self.settings_view(),
            r.buf_view() == self.buf_view(),
            r.cur() == self.cur(),
            r.listing_view() == self.listing_view(),
    {
        PathPrompt { initial: Some(owned(v)), ..self }
    }

    /// When `true`, only accept directories.
    pub fn directory(self, v: bool) -> (r: PathPrompt)
        ensures
            r.directory_view() == v,
            r.label_view() == self.label_view(),
            r.initial_view() == self.initial_view(),
            r.max_items_view() == self.max_items_view(),
            r.settings_view() == self.settings_view(),
            r.buf_view() == self.buf_view(),
            r.cur() == self.cur(),
            r.listing_view() == self.listing_view(),
    {
        PathPrompt { directory: v, ..self }
    }

    /// Maximum number of completions shown at once (at least 1).
    pub fn max_items(self, n: usize) -> (r: PathPrompt)
        ensures
            r.max_items_view() == if n >= 1 { n } else { 1 },
            r.label_view() == self.label_view(),
            r.initial_view() == self.initial_view(),
            r.directory_view() == self.directory_view(),
            r.settings_view() == self.settings_view(),
            r.buf_view() == self.buf_view(),
            r.cur() == self.cur(),
            r.listing_view() == self.listing_view(),
    {
        PathPrompt { max_items: if n >= 1 { n } else { 1 }, ..self }
    }

    /// Render and read key behaviour with `s` in place of the defaults.
    pub fn settings(self, s: Settings) -> (r: PathPrompt)
        ensures
            r.settings_view() == s,
            r.label_view() == self.label_view(),
            r.initial_view() == self.initial_view(),
            r.directory_view() == self.directory_view(),
            r.max_items_view() == self.max_items_view(),
            r.buf_view() == self.buf_view(),
            r.cur() == self.cur(),
            r.listing_view() == self.listing_view(),
    {
        PathPrompt { settings: s, ..self }
    }

    /// Prepare to run: start from the initial path, or from `cwd`, with
    /// a trailing `/`.
    pub fn ready(self, cwd: &str) -> (r: PathPrompt)
        ensures
            r.buf_view() == start_buf(self.initial_view(), cwd@),
            PathPrompt::same_config(&r, &self),
            r.cur() == self.cur(),
            r.listing_view() == self.listing_view(),
    {
        let mut b = match &self.initial {
            Some(i) => i.clone(),
            None => owned(cwd),
        };
        let v = chars_of(b.as_str());
        if !(v.len() > 0 && v[v.len() - 1] == '/') {
            push_char(&mut b, '/');
        }
        PathPrompt { buf: b, ..self }
    }

    /// The path typed so far.
    pub fn typed(&self) -> (r: &str)
        ensures
            r@ == self.buf_view(),
    {
        self.buf.as_str()
    }

    /// The directory to list for the typed path, and the fragment its
    /// entries must start with.
    pub fn split(&self) -> (r: (String, String))
        ensures
            (r.0@, r.1@) == split_path(self.buf_view()),
    {
        split_path_exec(self.buf.as_str())
    }

    /// Take a fresh listing of the directory part of the typed path, and
    /// whether the typed path is a directory: the completions become the
    /// entries whose names start with the fragment (directories only, if
    /// only directories are accepted), directories first and then by
    /// name, at most `max_items` of them.
    pub fn set_listing(&mut self, raw: Vec<RawEntry>, buf_is_dir: bool)
        ensures
            PathPrompt::same_config(&*final(self), &*old(self)),
            final(self).buf_view() == old(self).buf_view(),
            final(self).cur() == old(self).cur(),
            final(self).buf_is_dir() == buf_is_dir,
            ({
                let frag = split_path(old(self).buf_view()).1;
                let offer = |e: EntryView| offered(e, frag, old(self).directory_view());
                let all = raw@.map_values(|e: RawEntry| raw_view(e)).filter(offer);
                let l = final(self).listing_view();
                exists|sorted: Seq<EntryView>|
                    #![trigger sorted.to_multiset()]
                    sorted.to_multiset() == all.to_multiset() && in_order(sorted) && l == (
                    if sorted.len() <= old(self).max_items_view() {
                        sorted
                    } else {
                        sorted.take(old(self).max_items_view() as int)
                    })
            }),
    {
        let ghost rv = raw@.map_values(|e: RawEntry| raw_view(e));
        let (_dir, frag) = split_path_exec(self.buf.as_str());
        let ghost offer = |e: EntryView| offered(e, frag@, self.directory);
        let mut sorted: Vec<RawEntry> = Vec::new();
        let mut src = raw;
        let mut taken: usize = 0;
        let ghost n = rv.len();
        let total = src.len();
        proof {
            assert(rv.take(0) =~= Seq::<EntryView>::empty());
            assert(Seq::<EntryView>::empty().filter(offer) =~= Seq::<EntryView>::empty()) by {
                reveal(Seq::filter);
            }
            assert(sorted@.map_values(|e: RawEntry| raw_view(e)) =~= Seq::<EntryView>::empty());
            assert(rv.subrange(0, n as int) =~= rv);
        }
        while src.len() > 0
            invariant
                n == rv.len(),
                n == total,
                offer == (|e: EntryView| offered(e, frag@, self.directory)),
                src@.len() + taken == n,
                src@.map_values(|e: RawEntry| raw_view(e)) == rv.subrange(taken as int, n as int),
                in_order(sorted@.map_values(|e: RawEntry| raw_view(e))),
                sorted@.map_values(|e: RawEntry| raw_view(e)).to_multiset() == rv.take(
                    taken as int,
                ).filter(offer).to_multiset(),
            decreases src@.len(),
        {
            let ghost before = src@;
            let e = src.remove(0);
            let ghost ev = raw_view(e);
            proof {
                assert(ev == rv[taken as int]) by {
                    assert(before.map_values(|e: RawEntry| raw_view(e))[0] == rv.subrange(
                        taken as int,
                        n as int,
                    )[0]);
                }
                assert(src@ =~= before.subrange(1, before.len() as int));
                let sm = src@.map_values(|e: RawEntry| raw_view(e));
                assert forall|j: int| 0 <= j < src@.len() implies #[trigger] sm[j] == rv[taken + 1 + j] by {
                    assert(src@[j] == before[j + 1]);
                    assert(before.map_values(|e: RawEntry| raw_view(e))[j + 1] == rv.subrange(
                        taken as int,
                        n as int,
                    )[j + 1]);
                }
                assert(src@.map_values(|e: RawEntry| raw_view(e)) =~= rv.subrange(taken + 1, n as int));
                assert(rv.take(taken + 1) =~= rv.take(taken as int).push(ev));
                rv.take(taken as int).lemma_filter_push(ev, offer);
            }
            let keep = starts_with_exec(e.name.as_str(), frag.as_str()) && (!self.directory
                || e.is_dir);
            if keep {
                insert_ordered(&mut sorted, e);
                proof {
                    vstd::seq_lib::to_multiset_build(rv.take(taken as int).filter(offer), ev);
                }
            }
            taken += 1;
        }
        proof {
            assert(rv.take(n as int) =~= rv);
        }
        let mut listing: Vec<Entry> = Vec::new();
        let mut k: usize = 0;
        let limit = if sorted.len() <= self.max_items { sorted.len() } else { self.max_items };
        let ghost sv = sorted@.map_values(|e: RawEntry| raw_view(e));
        while k < limit
            invariant
                sv == sorted@.map_values(|e: RawEntry| raw_view(e)),
                limit <= sorted@.len(),
                0 <= k <= limit,
                listing@.map_values(|e: Entry| entry_view(e)) == sv.take(k as int),
            decreases limit - k,
        {
            let r = &sorted[k];
            let e = Entry { name: r.name.clone(), path: r.path.clone(), is_dir: r.is_dir };
            let ghost prev = listing@;
            proof {
                assert(entry_view(e) == sv[k as int]);
            }
            listing.push(e);
            proof {
                assert(listing@.map_values(|e: Entry| entry_view(e)) =~= prev.map_values(
                    |e: Entry| entry_view(e),
                ).push(sv[k as int]));
                assert(sv.take(k + 1) =~= sv.take(k as int).push(sv[k as int]));
            }
            k += 1;
        }
        proof {
            if sv.len() <= self.max_items {
                assert(sv.take(limit as int) =~= sv);
            }
        }
        self.listing = listing;
        self.buf_is_dir = buf_is_dir;
        proof {
            let l = self.listing_view();
            assert(sv.to_multiset() == rv.filter(offer).to_multiset());
            assert(l == (if sv.len() <= self.max_items_view() {
                sv
            } else {
                sv.take(self.max_items_view() as int)
            }));
        }
    }

    /// The question of the fallback.
    pub fn fallback_ask(&self) -> (r: String)
        ensures
            r@ == "  "@ + self.label_view() + ": "@,
    {
        let mut out = owned("  ");
        proof {
            reveal_strlit("  ");
        }
        out.append(self.label.as_str());
        out.append(": ");
        out
    }

    /// The path typed on a fallback line.
    pub fn fallback_path(line: &str) -> (r: String)
        ensures
            r@ == line@,
    {
        owned(line)
    }

    /// The rows of the live frame.
    pub open spec fn spec_render(&self) -> Seq<Seq<char>> {
        let s = self.settings_view();
        let l = self.listing_view();
        seq![
            spec_label_state(self.label_view(), false, &s),
            painted(s.colors.dim, BAR@) + "  "@ + painted(s.colors.input, self.buf_view()),
        ] + (if l.len() == 0 {
            seq![painted(s.colors.dim, BAR@) + "  "@ + painted(s.colors.dim, "(no matches)"@)]
        } else {
            Seq::new(l.len(), |k: int| entry_row(l[k], k == self.cur(), &s))
        }) + seq![spec_hint(path_help(), &s), spec_frame_bot(None, &s)]
    }
}

fn entry_row_exec(e: &Entry, active: bool, s: &Settings) -> (r: String)
    ensures
        r@ == entry_row(entry_view(*e), active, s),
{
    let prefix = if active {
        paint(s.colors.accent, CURSOR)
    } else {
        paint(s.colors.dim, " ")
    };
    let style = if active { crate::styles::white() } else { crate::styles::dim() };
    let name = paint(style, e.name.as_str());
    let glyph = paint(s.colors.dim, if e.is_dir { "/" } else { " " });
    let mut out = paint(s.colors.dim, BAR);
    out.append("  ");
    out.append(prefix.as_str());
    out.append(" ");
    out.append(name.as_str());
    out.append(glyph.as_str());
    out
}

impl Prompt for PathPrompt {
    type Output = String;

    open spec fn handle_ok(&self, key: Key) -> bool {
        true
    }

    open spec fn render_ok(&self) -> bool {
        true
    }

    /// Tab completes the typed path to the highlighted completion (with a
    /// `/` after a directory); characters and Backspace edit the path;
    /// those three go back to the first completion. Up/Down move among
    /// the completions; Enter submits the path (refused when only
    /// directories are accepted and it is not one); Escape and Ctrl-C
    /// cancel.
    fn handle(&mut self, key: Key) -> (r: Step<String>)
        ensures
            PathPrompt::same_config(&*final(self), &*old(self)),
            final(self).listing_view() == old(self).listing_view(),
            final(self).buf_is_dir() == old(self).buf_is_dir(),
            ({
                let b = old(self).buf_view();
                let p = old(self).cur();
                let l = old(self).listing_view();
                match key {
                    Key::Char('\t') => r is Continue && if p < l.len() {
                        final(self).buf_view() == (if l[p as int].2 {
                            l[p as int].1.push('/')
                        } else {
                            l[p as int].1
                        }) && final(self).cur() == 0
                    } else {
                        final(self).buf_view() == b && final(self).cur() == p
                    },
                    Key::Char(c) => r is Continue && final(self).buf_view() == b.push(c)
                        && final(self).cur() == 0,
                    Key::Backspace => r is Continue && final(self).buf_view() == (if b.len() > 0 {
                        b.drop_last()
                    } else {
                        b
                    }) && final(self).cur() == 0,
                    Key::Up => r is Continue && final(self).buf_view() == b && final(self).cur()
                        == if p > 0 {
                        p - 1
                    } else {
                        p as int
                    },
                    Key::Down => r is Continue && final(self).buf_view() == b && final(self).cur()
                        == if p + 1 < l.len() {
                        p + 1
                    } else {
                        p as int
                    },
                    Key::Enter => final(self).buf_view() == b && final(self).cur() == p && if old(
                        self,
                    ).directory_view() && !old(self).buf_is_dir() {
                        r matches Step::Reject(m) && m@ == not_dir_msg()
                    } else {
                        r matches Step::Submit(v) && v@ == b
                    },
                    Key::Escape | Key::Interrupt => r is Cancel && final(self).buf_view() == b
                        && final(self).cur() == p,
                    _ => r is Continue && final(self).buf_view() == b && final(self).cur() == p,
                }
            }),
    {
        match key {
            Key::Char('\t') => {
                if self.cur < self.listing.len() {
                    let e = &self.listing[self.cur];
                    proof {
                        assert(entry_view(self.listing@[self.cur as int]) == self.listing_view()[self.cur as int]);
                    }
                    let mut b = e.path.clone();
                    if e.is_dir {
                        push_char(&mut b, '/');
                    }
                    self.buf = b;
                    self.cur = 0;
                }
                Step::Continue
            },
            Key::Char(c) => {
                push_char(&mut self.buf, c);
                self.cur = 0;
                Step::Continue
            },
            Key::Backspace => {
                let v = chars_of(self.buf.as_str());
                if v.len() > 0 {
                    self.buf = string_of_range(&v, 0, v.len() - 1);
                    proof {
                        assert(v@.subrange(0, v@.len() - 1) =~= v@.drop_last());
                    }
                }
                self.cur = 0;
                Step::Continue
            },
            Key::Up => {
                if self.cur > 0 {
                    self.cur = self.cur - 1;
                }
                Step::Continue
            },
            Key::Down => {
                if self.listing.len() > 0 && self.cur < self.listing.len() - 1 {
                    self.cur = self.cur + 1;
                }
                Step::Continue
            },
            Key::Enter => {
                if self.directory && !self.buf_is_dir {
                    proof {
                        reveal_strlit("Not a directory");
                    }
                    Step::Reject(owned("Not a directory"))
                } else {
                    Step::Submit(self.buf.clone())
                }
            },
            Key::Escape | Key::Interrupt => Step::Cancel,
            _ => Step::Continue,
        }
    }

    /// Label, the typed path, the completions (or `(no matches)`), key
    /// help, bottom row.
    fn render(&self, _ctx: RenderCtx) -> (r: Frame)
        ensures
            rows(r) == self.spec_render(),
    {
        let s = &self.settings;
        let mut f: Frame = Vec::new();
        f.push(label(self.label.as_str(), s));
        let mut row = paint(s.colors.dim, BAR);
        row.append("  ");
        let b = paint(s.colors.input, self.buf.as_str());
        row.append(b.as_str());
        f.push(row);
        let ghost head = rows(f);
        let ghost l = self.listing_view();
        if self.listing.len() == 0 {
            let nm = "(no matches)";
            let mut row = paint(s.colors.dim, BAR);
            row.append("  ");
            let t = paint(s.colors.dim, nm);
            row.append(t.as_str());
            f.push(row);
        } else {
            let mut k: usize = 0;
            while k < self.listing.len()
                invariant
                    l == self.listing_view(),
                    *s == self.settings_view(),
                    0 <= k <= l.len(),
                    head == seq![
                        spec_label_state(self.label_view(), false, s),
                        painted(s.colors.dim, BAR@) + "  "@ + painted(s.colors.input, self.buf_view()),
                    ],
                    rows(f) == head + Seq::new(l.len(), |j: int| entry_row(l[j], j == self.cur(), s)).take(
                        k as int,
                    ),
                decreases l.len() - k,
            {
                proof {
                    assert(entry_view(self.listing@[k as int]) == l[k as int]);
                }
                let row = entry_row_exec(&self.listing[k], k == self.cur, s);
                let ghost prev = f@;
                f.push(row);
                proof {
                    let all = Seq::new(l.len(), |j: int| entry_row(l[j], j == self.cur(), s));
                    assert(rows(f) =~= prev.map_values(|x: String| x@).push(row@));
                    assert(all.take(k + 1) =~= all.take(k as int).push(row@));
                }
                k += 1;
            }
            proof {
                let all = Seq::new(l.len(), |j: int| entry_row(l[j], j == self.cur(), s));
                assert(all.take(l.len() as int) =~= all);
            }
        }
        let help = "Tab to complete · ↑ ↓ to navigate · Enter to confirm";
        proof {
            reveal_strlit("Tab to complete · ↑ ↓ to navigate · Enter to confirm");
        }
        f.push(hint(help, s));
        f.push(frame_bot(None, s));
        proof {
            assert(rows(f) =~= self.spec_render());
        }
        f
    }

    /// Question, the chosen path, connector.
    fn render_answered(&self, value: &String) -> (r: Frame)
        ensures
            rows(r) == split_on(spec_answered(self.label_view(), value@, &self.settings_view()), crlf()),
    {
        answered_rows(self.label.as_str(), value.as_str(), &self.settings)
    }
}

} // verus!

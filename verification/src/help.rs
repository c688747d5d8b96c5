//! Help page layout: the header, the usage line, aligned sections,
//! examples, notes and a link, each row styled.

use vstd::prelude::*;
use crate::strutil::{
    chars_of, has_suffix, joined, owned, push_char, rfind, rfind_exec, skip_ws_back, skip_ws_fwd,
    split_on, split_str, string_of_range, trimmed_end,
};
use crate::styles::{
    dim, paint, painted, spec_dim, spec_white, spec_white_bold, white, white_bold, AnsiColor, Style,
    ARROW, BAR, DIAMOND,
};

verus! {

broadcast use vstd::string::group_string_axioms;

// ── scanning helpers ─────────────────────────────────────────────────────────

/// The index just past the first `c` at or after `j`, or the length.
pub open spec fn scan_to(s: Seq<char>, j: int, c: char) -> int
    decreases s.len() - j,
{
    if j < 0 || j >= s.len() {
        if j < 0 { 0 } else { s.len() as int }
    } else if s[j] == c {
        j + 1
    } else {
        scan_to(s, j + 1, c)
    }
}

/// The index just past a run of `.` starting at `j`.
pub open spec fn skip_dots(s: Seq<char>, j: int) -> int
    decreases s.len() - j,
{
    if 0 <= j < s.len() && s[j] == '.' {
        skip_dots(s, j + 1)
    } else {
        j
    }
}

proof fn lemma_scan_to(s: Seq<char>, j: int, c: char)
    requires
        0 <= j <= s.len(),
    ensures
        j <= scan_to(s, j, c) <= s.len(),
        j < s.len() ==> j < scan_to(s, j, c),
    decreases s.len() - j,
{
    if j < s.len() && s[j] != c {
        lemma_scan_to(s, j + 1, c);
    }
}

proof fn lemma_skip_dots(s: Seq<char>, j: int)
    requires
        0 <= j <= s.len(),
    ensures
        j <= skip_dots(s, j) <= s.len(),
    decreases s.len() - j,
{
    if j < s.len() && s[j] == '.' {
        lemma_skip_dots(s, j + 1);
    }
}

fn scan_to_exec(v: &Vec<char>, j: usize, c: char) -> (r: usize)
    requires
        j <= v@.len(),
    ensures
        r == scan_to(v@, j as int, c),
        j <= r <= v@.len(),
{
    let mut k = j;
    while k < v.len()
        invariant
            j <= k <= v@.len(),
            scan_to(v@, j as int, c) == scan_to(v@, k as int, c),
        decreases v@.len() - k,
    {
        if v[k] == c {
            return k + 1;
        }
        k += 1;
    }
    k
}

fn skip_dots_exec(v: &Vec<char>, j: usize) -> (r: usize)
    requires
        j <= v@.len(),
    ensures
        r == skip_dots(v@, j as int),
        j <= r <= v@.len(),
{
    let mut k = j;
    while k < v.len() && v[k] == '.'
        invariant
            j <= k <= v@.len(),
            skip_dots(v@, j as int) == skip_dots(v@, k as int),
        decreases v@.len() - k,
    {
        k += 1;
    }
    k
}

// ── flag keys ────────────────────────────────────────────────────────────────

/// A flag chunk styled from position `i`, with `buf` the plain text not
/// yet written: `<…>` runs (with trailing dots) dimmed, other text bold
/// white.
pub open spec fn flag_scan(s: Seq<char>, i: int, buf: Seq<char>) -> Seq<char>
    decreases s.len() - i,
{
    if i < 0 || i >= s.len() {
        if buf.len() > 0 {
            painted(spec_white_bold(), buf)
        } else {
            Seq::empty()
        }
    } else if s[i] == '<' {
        let k = skip_dots(s, scan_to(s, i + 1, '>'));
        (if buf.len() > 0 {
            painted(spec_white_bold(), buf)
        } else {
            Seq::empty()
        }) + painted(spec_dim(), s.subrange(i, k)) + if i < k <= s.len() {
            flag_scan(s, k, Seq::empty())
        } else {
            Seq::empty()
        }
    } else {
        flag_scan(s, i + 1, buf.push(s[i]))
    }
}

/// Style one flag chunk like `-j, --jobs <N>`.
pub fn style_flag_part(part: &str) -> (r: String)
    ensures
        r@ == flag_scan(part@, 0, Seq::empty()),
{
    let v = chars_of(part);
    let mut out = String::new();
    let mut buf = String::new();
    let mut i: usize = 0;
    while i < v.len()
        invariant
            v@ == part@,
            0 <= i <= v@.len(),
            flag_scan(v@, 0, Seq::empty()) == out@ + flag_scan(v@, i as int, buf@),
        decreases v@.len() - i,
    {
        let ghost out0 = out@;
        if v[i] == '<' {
            let ghost b = buf@;
            if !buf.as_str().is_empty() {
                let p = paint(white_bold(), buf.as_str());
                out.append(p.as_str());
                buf = String::new();
            }
            let j = scan_to_exec(&v, i + 1, '>');
            let k = skip_dots_exec(&v, j);
            proof {
                lemma_scan_to(v@, i + 1, '>');
            }
            let angle = string_of_range(&v, i, k);
            let p = paint(dim(), angle.as_str());
            out.append(p.as_str());
            proof {
                assert(flag_scan(v@, i as int, b) == (if b.len() > 0 {
                    painted(spec_white_bold(), b)
                } else {
                    Seq::empty()
                }) + painted(spec_dim(), v@.subrange(i as int, k as int)) + flag_scan(
                    v@,
                    k as int,
                    Seq::empty(),
                ));
                assert(out@ == out0 + (if b.len() > 0 {
                    painted(spec_white_bold(), b)
                } else {
                    Seq::empty()
                }) + painted(spec_dim(), v@.subrange(i as int, k as int)));
                assert(buf@ == Seq::<char>::empty());
            }
            i = k;
        } else {
            let ghost b = buf@;
            push_char(&mut buf, v[i]);
            proof {
                assert(flag_scan(v@, i as int, b) == flag_scan(v@, i + 1, buf@));
            }
            i += 1;
        }
    }
    if !buf.as_str().is_empty() {
        let p = paint(white_bold(), buf.as_str());
        out.append(p.as_str());
    }
    out
}

/// The separator between the two halves of a negatable flag.
pub open spec fn flag_sep() -> Seq<char> {
    " "@ + painted(spec_dim(), "/"@) + " "@
}

/// A key cell: a positional `<NAME>` (no spaces) in the accent colour;
/// otherwise each ` / `-separated flag chunk styled, rejoined with a dim
/// `/`. Leading whitespace is kept as is.
pub open spec fn key_text(key: Seq<char>, accent: Style) -> Seq<char> {
    let n = skip_ws_fwd(key, 0);
    let indent = key.subrange(0, n);
    let body = key.subrange(n, key.len() as int);
    if body.len() > 0 && body[0] == '<' && body.last() == '>' && !body.contains(' ') {
        indent + painted(accent, body)
    } else {
        indent + joined(
            split_on(body, " / "@).map_values(|p: Seq<char>| flag_scan(p, 0, Seq::empty())),
            flag_sep(),
        )
    }
}

/// Style a `key` cell.
pub fn style_key(key: &str, accent: Style) -> (r: String)
    ensures
        r@ == key_text(key@, accent),
{
    let v = chars_of(key);
    let mut n: usize = 0;
    while n < v.len() && crate::strutil::char_is_whitespace(v[n])
        invariant
            v@ == key@,
            0 <= n <= v@.len(),
            skip_ws_fwd(key@, 0) == skip_ws_fwd(key@, n as int),
        decreases v@.len() - n,
    {
        n += 1;
    }
    let indent = string_of_range(&v, 0, n);
    let body = string_of_range(&v, n, v.len());
    let bv = chars_of(body.as_str());
    let mut has_space = false;
    let mut k: usize = 0;
    while k < bv.len()
        invariant
            bv@ == body@,
            0 <= k <= bv@.len(),
            has_space <==> (exists|j: int| 0 <= j < k && bv@[j] == ' '),
        decreases bv@.len() - k,
    {
        if bv[k] == ' ' {
            has_space = true;
        }
        k += 1;
    }
    proof {
        if has_space {
            let j = choose|j: int| 0 <= j < bv@.len() && bv@[j] == ' ';
            assert(body@[j] == ' ');
        }
        if body@.contains(' ') {
            let j = choose|j: int| 0 <= j < body@.len() && body@[j] == ' ';
            assert(bv@[j] == ' ');
        }
    }
    if bv.len() > 0 && bv[0] == '<' && bv[bv.len() - 1] == '>' && !has_space {
        let mut out = indent;
        let p = paint(accent, body.as_str());
        out.append(p.as_str());
        return out;
    }
    let sep_in = " / ";
    proof {
        reveal_strlit(" / ");
    }
    let parts = split_str(body.as_str(), sep_in);
    let mut styled: Vec<String> = Vec::new();
    let ghost ps = parts@.map_values(|x: String| x@);
    let mut j: usize = 0;
    while j < parts.len()
        invariant
            ps == parts@.map_values(|x: String| x@),
            0 <= j <= parts@.len(),
            styled@.map_values(|x: String| x@) == ps.take(j as int).map_values(
                |p: Seq<char>| flag_scan(p, 0, Seq::empty()),
            ),
        decreases parts@.len() - j,
    {
        let st = style_flag_part(parts[j].as_str());
        let ghost prev = styled@;
        styled.push(st);
        proof {
            assert(ps[j as int] == parts@[j as int]@);
            assert(styled@.map_values(|x: String| x@) =~= prev.map_values(|x: String| x@).push(st@));
            assert(ps.take(j + 1) =~= ps.take(j as int).push(ps[j as int]));
        }
        j += 1;
    }
    proof {
        assert(ps.take(ps.len() as int) =~= ps);
    }
    let mut sep = owned(" ");
    let slash = paint(dim(), "/");
    sep.append(slash.as_str());
    sep.append(" ");
    proof {
        reveal_strlit(" ");
    }
    let joined_parts = crate::strutil::join(&styled, sep.as_str());
    let mut out = indent;
    out.append(joined_parts.as_str());
    out
}

// ── descriptions ─────────────────────────────────────────────────────────────

/// A description cell: a trailing `[default: …]` (when the text ends in
/// `]`) is dimmed and set two spaces after the rest; everything else is
/// white.
pub open spec fn desc_text(desc: Seq<char>) -> Seq<char> {
    let idx = rfind(desc, "[default:"@);
    let t = trimmed_end(desc);
    if idx >= 0 && t.len() > 0 && t.last() == ']' {
        painted(spec_white(), trimmed_end(desc.subrange(0, idx))) + "  "@ + painted(
            spec_dim(),
            desc.subrange(idx, desc.len() as int),
        )
    } else {
        painted(spec_white(), desc)
    }
}

/// Style the description cell.
pub fn style_desc(desc: &str) -> (r: String)
    ensures
        r@ == desc_text(desc@),
{
    let v = chars_of(desc);
    let pat = chars_of("[default:");
    let t = crate::strutil::trim_end(desc);
    let tv = chars_of(t.as_str());
    match rfind_exec(&v, &pat) {
        Some(idx) => {
            proof {
                crate::strutil::lemma_rfind_bounds(v@, pat@);
            }
            if tv.len() > 0 && tv[tv.len() - 1] == ']' {
                let head_raw = string_of_range(&v, 0, idx);
                let head = crate::strutil::trim_end(head_raw.as_str());
                let tail = string_of_range(&v, idx, v.len());
                let mut out = paint(white(), head.as_str());
                out.append("  ");
                let d = paint(dim(), tail.as_str());
                out.append(d.as_str());
                return out;
            }
        },
        None => {},
    }
    paint(white(), desc)
}

// ── usage line ───────────────────────────────────────────────────────────────

/// Pending plain text written out: the program name (the first word) bold
/// white with its trailing spaces kept plain; later text white.
pub open spec fn flush_text(buf: Seq<char>, first: bool) -> Seq<char> {
    if buf.len() == 0 {
        Seq::empty()
    } else if first {
        let t = trimmed_end(buf);
        painted(spec_white_bold(), t) + buf.subrange(t.len() as int, buf.len() as int)
    } else {
        painted(spec_white(), buf)
    }
}

/// The usage line styled from position `i`: `<…>` in the accent colour,
/// `[…]` dimmed, other text as [`flush_text`] writes it.
pub open spec fn usage_scan(s: Seq<char>, i: int, buf: Seq<char>, first: bool, accent: Style) -> Seq<char>
    decreases s.len() - i,
{
    if i < 0 || i >= s.len() {
        flush_text(buf, first)
    } else if s[i] == '<' || s[i] == '[' {
        let close = if s[i] == '<' { '>' } else { ']' };
        let style = if s[i] == '<' { accent } else { spec_dim() };
        let j = scan_to(s, i + 1, close);
        flush_text(buf, first) + painted(style, s.subrange(i, j)) + if i < j <= s.len() {
            usage_scan(s, j, Seq::empty(), first && buf.len() == 0, accent)
        } else {
            Seq::empty()
        }
    } else {
        usage_scan(s, i + 1, buf.push(s[i]), first, accent)
    }
}

fn flush_exec(out: &mut String, buf: &str, first: bool)
    ensures
        final(out)@ == old(out)@ + flush_text(buf@, first),
{
    if buf.is_empty() {
        return;
    }
    if first {
        let v = chars_of(buf);
        let t = crate::strutil::trim_end(buf);
        let tl = chars_of(t.as_str()).len();
        proof {
            crate::strutil::lemma_skip_ws_back(buf@, buf@.len() as int);
        }
        let p = paint(white_bold(), t.as_str());
        out.append(p.as_str());
        let rest = string_of_range(&v, tl, v.len());
        out.append(rest.as_str());
    } else {
        let p = paint(white(), buf);
        out.append(p.as_str());
    }
}

/// Style the usage line: the program name bold, positionals `<…>` in the
/// accent colour, `[…]` groups dimmed.
pub fn style_usage(usage: &str, accent: Style) -> (r: String)
    ensures
        r@ == usage_scan(usage@, 0, Seq::empty(), true, accent),
{
    let v = chars_of(usage);
    let mut out = String::new();
    let mut buf = String::new();
    let mut first = true;
    let mut i: usize = 0;
    while i < v.len()
        invariant
            v@ == usage@,
            0 <= i <= v@.len(),
            usage_scan(v@, 0, Seq::empty(), true, accent) == out@ + usage_scan(
                v@,
                i as int,
                buf@,
                first,
                accent,
            ),
        decreases v@.len() - i,
    {
        let c = v[i];
        if c == '<' || c == '[' {
            let close = if c == '<' { '>' } else { ']' };
            let style = if c == '<' { accent } else { dim() };
            let ghost b = buf@;
            let ghost f = first;
            flush_exec(&mut out, buf.as_str(), first);
            if !buf.as_str().is_empty() {
                first = false;
            }
            buf = String::new();
            let j = scan_to_exec(&v, i + 1, close);
            proof {
                lemma_scan_to(v@, i + 1, close);
            }
            let token = string_of_range(&v, i, j);
            let p = paint(style, token.as_str());
            out.append(p.as_str());
            proof {
                assert(usage_scan(v@, i as int, b, f, accent) == flush_text(b, f) + painted(
                    style,
                    v@.subrange(i as int, j as int),
                ) + usage_scan(v@, j as int, Seq::empty(), f && b.len() == 0, accent));
            }
            i = j;
        } else {
            push_char(&mut buf, c);
            i += 1;
        }
    }
    flush_exec(&mut out, buf.as_str(), first);
    out
}

/// Visible width of a help key: its number of characters.
pub fn visible_width(s: &str) -> (r: usize)
    ensures
        r == s@.len(),
{
    chars_of(s).len()
}

// ── the page ────────────────────────────────────────────────────────────────

/// A named section in the help output (e.g. "Arguments").
pub struct HelpSection {
    /// Section title shown after the `◆` symbol.
    pub title: String,
    /// Entries within the section.
    pub entries: Vec<HelpEntry>,
}

/// A single line within a [`HelpSection`].
pub enum HelpEntry {
    /// A key/description pair, aligned in columns across the section.
    Pair {
        /// Left column, e.g. `--port <N>`.
        key: String,
        /// Right column description.
        desc: String,
    },
    /// A free-form dimmed line.
    Detail(String),
}

/// The width of the widest key among the pairs of `es[..n]`.
pub open spec fn max_key(es: Seq<HelpEntry>, n: int) -> nat
    decreases n,
{
    if n <= 0 {
        0
    } else {
        let rest = max_key(es, n - 1);
        match es[n - 1] {
            HelpEntry::Pair { key, desc } => if key@.len() > rest {
                key@.len()
            } else {
                rest
            },
            HelpEntry::Detail(_) => rest,
        }
    }
}

proof fn lemma_max_key(es: Seq<HelpEntry>, n: int, k: int)
    requires
        0 <= k < n <= es.len(),
    ensures
        es[k] matches HelpEntry::Pair { key, desc } ==> key@.len() <= max_key(es, n),
    decreases n,
{
    if k < n - 1 {
        lemma_max_key(es, n - 1, k);
    }
}

proof fn lemma_max_key_is_a_key(es: Seq<HelpEntry>, n: int)
    requires
        0 <= n <= es.len(),
    ensures
        max_key(es, n) == 0 || exists|k: int|
            0 <= k < n && (#[trigger] es[k] matches HelpEntry::Pair { key, desc } && key@.len()
                == max_key(es, n)),
    decreases n,
{
    if n > 0 {
        lemma_max_key_is_a_key(es, n - 1);
    }
}

/// The dimmed `│` at the start of a row.
pub open spec fn bar_text() -> Seq<char> {
    painted(spec_dim(), BAR@)
}

/// A section title row: `◆ Title` in the accent colour.
pub open spec fn title_row(accent: Style, title: Seq<char>) -> Seq<char> {
    painted(accent, DIAMOND@) + " "@ + painted(accent, title)
}

/// One entry row of a section whose widest key is `width`.
pub open spec fn entry_row(e: HelpEntry, width: nat, accent: Style) -> Seq<char> {
    match e {
        HelpEntry::Pair { key, desc } => bar_text() + "  "@ + key_text(key@, accent) + crate::strutil::spaces(
            (width - key@.len() + 2) as nat,
        ) + desc_text(desc@),
        HelpEntry::Detail(line) => bar_text() + "  "@ + painted(spec_dim(), line@),
    }
}

/// The rows of a section: its title, its entries aligned on the widest
/// key, a blank row.
pub open spec fn section_rows(sec: HelpSection, accent: Style) -> Seq<Seq<char>> {
    let es = sec.entries@;
    let w = max_key(es, es.len() as int);
    seq![title_row(accent, sec.title@)] + es.map_values(|e: HelpEntry| entry_row(e, w, accent))
        + seq![Seq::<char>::empty()]
}

/// The rows of the sections `ss[..n]`.
pub open spec fn sections_rows(ss: Seq<HelpSection>, n: int, accent: Style) -> Seq<Seq<char>>
    decreases n,
{
    if n <= 0 {
        Seq::empty()
    } else {
        sections_rows(ss, n - 1, accent) + section_rows(ss[n - 1], accent)
    }
}

/// The keys of a section fit beside their padding.
pub open spec fn keys_fit(ss: Seq<HelpSection>) -> bool {
    forall|i: int, k: int|
        0 <= i < ss.len() && 0 <= k < ss[i].entries@.len() ==> (#[trigger] ss[i].entries@[k] matches HelpEntry::Pair {
            key,
            desc,
        } ==> key@.len() + 2 <= usize::MAX)
}

/// `about · tagline`, or whichever of the two is not empty.
pub open spec fn subtitle_text(about: Seq<char>, tagline: Seq<char>) -> Seq<char> {
    if about.len() > 0 && tagline.len() > 0 {
        about + " · "@ + tagline
    } else if about.len() > 0 {
        about
    } else {
        tagline
    }
}

/// The link style: bright cyan, underlined.
pub open spec fn link_style() -> Style {
    Style { fg: Some(AnsiColor::BrightCyan), bg: None, bold: false, underline: true }
}

/// The page's top: a blank row, the name and version, the subtitle, the
/// usage block.
pub open spec fn page_head(
    name: Seq<char>,
    version: Seq<char>,
    about: Seq<char>,
    tagline: Seq<char>,
    usage: Seq<char>,
    accent: Style,
) -> Seq<Seq<char>> {
    let sub = subtitle_text(about, tagline);
    let blank = Seq::<char>::empty();
    seq![
        blank,
        painted(accent, DIAMOND@) + " "@ + painted(spec_white_bold(), name) + " "@ + painted(
            accent,
            "v"@ + version,
        ),
    ] + (if sub.len() > 0 {
        seq![bar_text() + "  "@ + painted(spec_dim(), sub)]
    } else {
        Seq::empty()
    }) + seq![
        blank,
        title_row(accent, "Usage"@),
        bar_text() + "  "@ + usage_scan(usage, 0, Seq::empty(), true, accent),
        blank,
    ]
}

/// One example row.
pub open spec fn example_row(ex: Seq<char>) -> Seq<char> {
    bar_text() + "  "@ + painted(spec_dim(), "$"@) + " "@ + painted(spec_white_bold(), ex)
}

/// The examples block, when there are examples.
pub open spec fn page_examples(examples: Seq<Seq<char>>, accent: Style) -> Seq<Seq<char>> {
    if examples.len() > 0 {
        seq![title_row(accent, "Examples"@)] + examples.map_values(|ex: Seq<char>| example_row(ex))
            + seq![Seq::<char>::empty()]
    } else {
        Seq::empty()
    }
}

/// The notes and link blocks, when there is a hint and a URL.
pub open spec fn page_tail(hint: Seq<char>, url: Seq<char>, accent: Style) -> Seq<Seq<char>> {
    let blank = Seq::<char>::empty();
    (if hint.len() > 0 {
        seq![
            title_row(accent, "Notes"@),
            bar_text() + "  "@ + painted(accent, ARROW@) + " "@ + painted(spec_white(), hint),
            blank,
        ]
    } else {
        Seq::empty()
    }) + (if url.len() > 0 {
        seq![title_row(accent, "Link"@), bar_text() + "  "@ + painted(link_style(), url), blank]
    } else {
        Seq::empty()
    })
}

/// The whole page, row by row.
pub open spec fn page_rows(
    name: Seq<char>,
    version: Seq<char>,
    about: Seq<char>,
    tagline: Seq<char>,
    url: Seq<char>,
    usage: Seq<char>,
    sections: Seq<HelpSection>,
    examples: Seq<Seq<char>>,
    hint: Seq<char>,
    accent: Style,
) -> Seq<Seq<char>> {
    page_head(name, version, about, tagline, usage, accent) + sections_rows(
        sections,
        sections.len() as int,
        accent,
    ) + page_examples(examples, accent) + page_tail(hint, url, accent)
}

fn title_exec(accent: Style, title: &str) -> (r: String)
    ensures
        r@ == title_row(accent, title@),
{
    let mut out = paint(accent, DIAMOND);
    out.append(" ");
    let t = paint(accent, title);
    out.append(t.as_str());
    out
}

fn push_rows(out: &mut Vec<String>, rows: Vec<String>)
    ensures
        final(out)@.map_values(|x: String| x@) == old(out)@.map_values(|x: String| x@) + rows@.map_values(
            |x: String| x@,
        ),
{
    let ghost start = out@.map_values(|x: String| x@);
    let ghost rv = rows@.map_values(|x: String| x@);
    let mut src = rows;
    let mut i: usize = 0;
    let n = src.len();
    while i < n
        invariant
            n == src@.len(),
            rv == src@.map_values(|x: String| x@),
            0 <= i <= n,
            out@.map_values(|x: String| x@) == start + rv.take(i as int),
        decreases n - i,
    {
        let r = src[i].clone();
        let ghost prev = out@;
        let ghost rvv = r@;
        out.push(r);
        proof {
            assert(rvv == rv[i as int]);
            assert(out@.map_values(|x: String| x@) =~= prev.map_values(|x: String| x@).push(rvv));
            assert(rv.take(i + 1) =~= rv.take(i as int).push(rvv));
        }
        i += 1;
    }
    proof {
        assert(rv.take(n as int) =~= rv);
    }
}

fn section_exec(sec: &HelpSection, accent: Style) -> (r: Vec<String>)
    requires
        forall|k: int|
            0 <= k < sec.entries@.len() ==> (#[trigger] sec.entries@[k] matches HelpEntry::Pair {
                key,
                desc,
            } ==> key@.len() + 2 <= usize::MAX),
    ensures
        r@.map_values(|x: String| x@) == section_rows(*sec, accent),
{
    let ghost es = sec.entries@;
    let mut w: usize = 0;
    let mut i: usize = 0;
    while i < sec.entries.len()
        invariant
            es == sec.entries@,
            0 <= i <= es.len(),
            w == max_key(es, i as int),
        decreases es.len() - i,
    {
        match &sec.entries[i] {
            HelpEntry::Pair { key, desc } => {
                let kw = visible_width(key.as_str());
                if kw > w {
                    w = kw;
                }
            },
            HelpEntry::Detail(_) => {},
        }
        i += 1;
    }
    let mut out: Vec<String> = Vec::new();
    out.push(title_exec(accent, sec.title.as_str()));
    let ghost head = out@.map_values(|x: String| x@);
    let bar = paint(dim(), BAR);
    let mut k: usize = 0;
    proof {
        lemma_max_key_is_a_key(es, es.len() as int);
    }
    while k < sec.entries.len()
        invariant
            es == sec.entries@,
            w == max_key(es, es.len() as int),
            w == 0 || exists|j: int|
                0 <= j < es.len() && (#[trigger] es[j] matches HelpEntry::Pair { key, desc }
                    && key@.len() == w),
            forall|j: int|
                0 <= j < es.len() ==> (#[trigger] es[j] matches HelpEntry::Pair { key, desc }
                    ==> key@.len() + 2 <= usize::MAX),
            bar@ == bar_text(),
            head == seq![title_row(accent, sec.title@)],
            0 <= k <= es.len(),
            out@.map_values(|x: String| x@) == head + es.take(k as int).map_values(
                |e: HelpEntry| entry_row(e, w as nat, accent),
            ),
        decreases es.len() - k,
    {
        let mut row = bar.clone();
        row.append("  ");
        match &sec.entries[k] {
            HelpEntry::Pair { key, desc } => {
                proof {
                    lemma_max_key(es, es.len() as int, k as int);
                    if w > 0 {
                        let j = choose|j: int|
                            0 <= j < es.len() && (#[trigger] es[j] matches HelpEntry::Pair {
                                key,
                                desc,
                            } && key@.len() == w);
                        assert(es[j] matches HelpEntry::Pair { key, desc });
                    }
                }
                let kw = visible_width(key.as_str());
                let sk = style_key(key.as_str(), accent);
                row.append(sk.as_str());
                let pad = crate::strutil::spaces_string(w - kw + 2);
                row.append(pad.as_str());
                let sd = style_desc(desc.as_str());
                row.append(sd.as_str());
            },
            HelpEntry::Detail(line) => {
                let d = paint(dim(), line.as_str());
                row.append(d.as_str());
            },
        }
        let ghost prev = out@;
        out.push(row);
        proof {
            assert(out@.map_values(|x: String| x@) =~= prev.map_values(|x: String| x@).push(row@));
            assert(es.take(k + 1) =~= es.take(k as int).push(es[k as int]));
        }
        k += 1;
    }
    proof {
        assert(es.take(es.len() as int) =~= es);
    }
    out.push(String::new());
    proof {
        assert(out@.map_values(|x: String| x@) =~= section_rows(*sec, accent));
    }
    out
}

/// The help page, one entry per row to print. (`badge` is accepted for the
/// theme's sake; the accent colour carries it.)
pub fn render(
    name: &str,
    version: &str,
    about: &str,
    tagline: &str,
    url: &str,
    usage: &str,
    sections: &Vec<HelpSection>,
    examples: &Vec<String>,
    hint: &str,
    badge: Style,
    accent: Style,
) -> (r: Vec<String>)
    requires
        keys_fit(sections@),
    ensures
        r@.map_values(|x: String| x@) == page_rows(
            name@,
            version@,
            about@,
            tagline@,
            url@,
            usage@,
            sections@,
            examples@.map_values(|x: String| x@),
            hint@,
            accent,
        ),
{
    let bar = paint(dim(), BAR);
    let mut out: Vec<String> = Vec::new();
    out.push(String::new());
    let mut head = paint(accent, DIAMOND);
    head.append(" ");
    let n = paint(white_bold(), name);
    head.append(n.as_str());
    head.append(" ");
    let mut ver = owned("v");
    proof {
        reveal_strlit("v");
    }
    ver.append(version);
    let v = paint(accent, ver.as_str());
    head.append(v.as_str());
    out.push(head);
    let about_e = about.is_empty();
    let tag_e = tagline.is_empty();
    if !about_e || !tag_e {
        let sub = if !about_e && !tag_e {
            let mut t = owned(about);
            t.append(" · ");
            t.append(tagline);
            t
        } else if !about_e {
            owned(about)
        } else {
            owned(tagline)
        };
        let mut row = bar.clone();
        row.append("  ");
        let d = paint(dim(), sub.as_str());
        row.append(d.as_str());
        out.push(row);
    }
    out.push(String::new());
    out.push(title_exec(accent, "Usage"));
    let mut urow = bar.clone();
    urow.append("  ");
    let u = style_usage(usage, accent);
    urow.append(u.as_str());
    out.push(urow);
    out.push(String::new());
    let ghost before_sections = out@.map_values(|x: String| x@);
    assert(before_sections =~= page_head(name@, version@, about@, tagline@, usage@, accent));
    let mut i: usize = 0;
    while i < sections.len()
        invariant
            keys_fit(sections@),
            0 <= i <= sections@.len(),
            before_sections == page_head(name@, version@, about@, tagline@, usage@, accent),
            out@.map_values(|x: String| x@) == before_sections + sections_rows(
                sections@,
                i as int,
                accent,
            ),
        decreases sections@.len() - i,
    {
        proof {
            assert forall|k: int| 0 <= k < sections@[i as int].entries@.len() implies (
            #[trigger] sections@[i as int].entries@[k] matches HelpEntry::Pair { key, desc }
                ==> key@.len() + 2 <= usize::MAX) by {
                assert(sections@[i as int].entries@[k] == sections@[i as int].entries@[k]);
            }
        }
        let rows = section_exec(&sections[i], accent);
        push_rows(&mut out, rows);
        i += 1;
    }
    let ghost body = page_head(name@, version@, about@, tagline@, usage@, accent) + sections_rows(
        sections@,
        sections@.len() as int,
        accent,
    );
    assert(out@.map_values(|x: String| x@) == body);
    let ghost before_examples = out@.map_values(|x: String| x@);
    let ghost exs = examples@.map_values(|x: String| x@);
    if examples.len() > 0 {
        out.push(title_exec(accent, "Examples"));
        let ghost after_title = out@.map_values(|x: String| x@);
        let mut k: usize = 0;
        while k < examples.len()
            invariant
                exs == examples@.map_values(|x: String| x@),
                after_title == body + seq![title_row(accent, "Examples"@)],
                bar@ == bar_text(),
                0 <= k <= exs.len(),
                out@.map_values(|x: String| x@) == after_title + exs.take(k as int).map_values(
                    |ex: Seq<char>| example_row(ex),
                ),
            decreases exs.len() - k,
        {
            let mut row = bar.clone();
            row.append("  ");
            let d = paint(dim(), "$");
            proof {
                reveal_strlit("$");
            }
            row.append(d.as_str());
            row.append(" ");
            let e = paint(white_bold(), examples[k].as_str());
            row.append(e.as_str());
            let ghost prev = out@;
            out.push(row);
            proof {
                assert(exs[k as int] == examples@[k as int]@);
                assert(out@.map_values(|x: String| x@) =~= prev.map_values(|x: String| x@).push(row@));
                assert(exs.take(k + 1) =~= exs.take(k as int).push(exs[k as int]));
            }
            k += 1;
        }
        proof {
            assert(exs.take(exs.len() as int) =~= exs);
        }
        let ghost mid = out@.map_values(|x: String| x@);
        out.push(String::new());
        proof {
            assert(mid == body + seq![title_row(accent, "Examples"@)] + exs.map_values(|ex: Seq<char>| example_row(ex)));
            assert(out@.map_values(|x: String| x@) =~= mid.push(Seq::<char>::empty()));
            assert(page_examples(exs, accent) =~= seq![title_row(accent, "Examples"@)] + exs.map_values(|ex: Seq<char>| example_row(ex)) + seq![Seq::<char>::empty()]);
        }
    }
    let ghost before_notes = out@.map_values(|x: String| x@);
    assert(before_notes =~= body + page_examples(exs, accent));
    if !hint.is_empty() {
        out.push(title_exec(accent, "Notes"));
        let mut row = bar.clone();
        row.append("  ");
        let a = paint(accent, ARROW);
        row.append(a.as_str());
        row.append(" ");
        let h = paint(white(), hint);
        row.append(h.as_str());
        out.push(row);
        out.push(String::new());
    }
    let ghost before_link = out@.map_values(|x: String| x@);
    if !url.is_empty() {
        let link = Style { fg: Some(AnsiColor::BrightCyan), bg: None, bold: false, underline: true };
        out.push(title_exec(accent, "Link"));
        let mut row = bar.clone();
        row.append("  ");
        let l = paint(link, url);
        row.append(l.as_str());
        out.push(row);
        out.push(String::new());
    }
    proof {
        assert(out@.map_values(|x: String| x@) =~= page_rows(
            name@,
            version@,
            about@,
            tagline@,
            url@,
            usage@,
            sections@,
            exs,
            hint@,
            accent,
        ));
    }
    out
}

} // verus!

//! Bordered text block: a rounded or square box with a title in the top
//! border and the body lines aligned inside.

use vstd::prelude::*;
use crate::strutil::{chars_of, fill, fill_string, lines, lines_of, owned, spaces, spaces_string};
use crate::styles::{dim, law_plain_of_painted, law_plain_of_text, paint, painted, plain, white};
use super::theme::max_len;

verus! {

broadcast use vstd::string::group_string_axioms;

/// Horizontal alignment of the title or the body.
#[derive(Clone, Copy, Debug, PartialEq, Eq, Structural)]
pub enum Align {
    Left,
    Center,
    Right,
}

/// The box's settings; [`BoxOptions::render`] draws it.
pub struct BoxOptions {
    pub title: String,
    pub body: String,
    pub title_align: Align,
    pub content_align: Align,
    pub title_padding: usize,
    pub content_padding: usize,
    pub width: Option<usize>,
    pub rounded: bool,
}

/// A box around `body` with `title` in its top border: left-aligned,
/// padded by 1 around the title and 2 around the body, rounded corners,
/// as wide as its content.
pub fn boxed(body: &str, title: &str) -> (r: BoxOptions)
    ensures
        r.title@ == title@,
        r.body@ == body@,
        r.title_align == Align::Left,
        r.content_align == Align::Left,
        r.title_padding == 1,
        r.content_padding == 2,
        r.width == None::<usize>,
        r.rounded,
{
    BoxOptions {
        title: owned(title),
        body: owned(body),
        title_align: Align::Left,
        content_align: Align::Left,
        title_padding: 1,
        content_padding: 2,
        width: None,
        rounded: true,
    }
}

/// `a - b`, or 0 when `b > a` (`usize::saturating_sub`).
pub open spec fn sat_sub(a: int, b: int) -> int {
    if a >= b {
        a - b
    } else {
        0
    }
}

/// The spaces left of a text of length `len` in a field of `inner`.
pub open spec fn left_pad(len: int, inner: int, pad: int, align: Align) -> int {
    match align {
        Align::Left => pad,
        Align::Center => sat_sub(inner, len) / 2,
        Align::Right => sat_sub(inner, len + pad),
    }
}

/// The spaces right of it.
pub open spec fn right_pad(len: int, inner: int, pad: int, align: Align) -> int {
    sat_sub(inner, left_pad(len, inner, pad, align) + len)
}

/// A text that fits (with its padding) fills its field exactly: left
/// padding, text and right padding add up to the field's width.
pub proof fn law_row_fills_field(len: int, inner: int, pad: int, align: Align)
    requires
        0 <= len,
        0 <= pad,
        len + (if align == Align::Center { 0 } else { pad }) <= inner,
    ensures
        left_pad(len, inner, pad, align) + len + right_pad(len, inner, pad, align) == inner,
        left_pad(len, inner, pad, align) >= 0,
        right_pad(len, inner, pad, align) >= 0,
{
}

/// Every body row reads, without its codes, as a bar, the line in a field
/// `inner` wide, a bar and a newline; so all body rows of a box are
/// equally wide.
pub proof fn law_box_row_reads(l: Seq<char>, inner: int, pad: int, align: Align)
    requires
        0 <= pad,
        l.len() + (if align == Align::Center { 0 } else { pad }) <= inner,
        forall|k: int| 0 <= k < l.len() ==> l[k] != '\x1b',
    ensures
        plain(box_row(l, inner, pad, align)) == "│"@ + spaces(
            left_pad(l.len() as int, inner, pad, align) as nat,
        ) + l + spaces(right_pad(l.len() as int, inner, pad, align) as nat) + "│\n"@,
        plain(box_row(l, inner, pad, align)).len() == inner + 3,
{
    reveal_strlit("│");
    reveal_strlit("\n");
    reveal_strlit("│\n");
    law_row_fills_field(l.len() as int, inner, pad, align);
    let lp = left_pad(l.len() as int, inner, pad, align);
    let rp = right_pad(l.len() as int, inner, pad, align);
    let bar = "│"@;
    let nl = "\n"@;
    let d = crate::styles::spec_dim();
    let mid = spaces(lp as nat) + l + spaces(rp as nat);
    assert forall|k: int| 0 <= k < mid.len() implies mid[k] != '\x1b' by {
        if k < lp {
        } else if k < lp + l.len() {
            assert(mid[k] == l[k - lp]);
        } else {
        }
    }
    let end = painted(d, bar) + nl;
    assert(box_row(l, inner, pad, align) =~= painted(d, bar) + (mid + end));
    law_plain_of_painted(d, bar, mid + end);
    law_plain_of_text(mid, end);
    law_plain_of_painted(d, bar, nl);
    law_plain_of_text(nl, Seq::empty());
    assert(nl + Seq::<char>::empty() =~= nl);
    assert(plain(Seq::<char>::empty()) == Seq::<char>::empty());
    assert(bar + (mid + (bar + nl)) =~= "│"@ + spaces(lp as nat) + l + spaces(rp as nat) + "│\n"@);
}

/// Left and right padding for a text of length `len` in a field of width
/// `inner`: `pad` on the aligned side, the rest on the other (centred
/// text gets half of the room on the left).
pub fn pad_for(len: usize, inner: usize, default_pad: usize, align: Align) -> (r: (usize, usize))
    requires
        align != Align::Center ==> len + default_pad <= usize::MAX,
    ensures
        r.0 == left_pad(len as int, inner as int, default_pad as int, align),
        r.1 == right_pad(len as int, inner as int, default_pad as int, align),
{
    let left = match align {
        Align::Left => default_pad,
        Align::Center => (if inner >= len { inner - len } else { 0 }) / 2,
        Align::Right => if inner >= len + default_pad { inner - (len + default_pad) } else { 0 },
    };
    let right = if inner >= left + len { inner - (left + len) } else { 0 };
    (left, right)
}

/// One body row of a box `inner` wide.
pub open spec fn box_row(l: Seq<char>, inner: int, pad: int, align: Align) -> Seq<char> {
    painted(crate::styles::spec_dim(), "│"@) + spaces(left_pad(l.len() as int, inner, pad, align) as nat)
        + l + spaces(right_pad(l.len() as int, inner, pad, align) as nat) + painted(
        crate::styles::spec_dim(),
        "│"@,
    ) + "\n"@
}

/// The body rows of `ls`, each ending in a newline.
pub open spec fn box_rows(ls: Seq<Seq<char>>, inner: int, pad: int, align: Align) -> Seq<char>
    decreases ls.len(),
{
    if ls.len() == 0 {
        Seq::empty()
    } else {
        box_rows(ls.drop_last(), inner, pad, align) + box_row(ls.last(), inner, pad, align)
    }
}

fn box_row_exec(line: &str, inner: usize, pad: usize, align: Align) -> (r: String)
    requires
        align != Align::Center ==> line@.len() + pad <= usize::MAX,
    ensures
        r@ == box_row(line@, inner as int, pad as int, align),
{
    let len = chars_of(line).len();
    let (lp, rp) = pad_for(len, inner, pad, align);
    let bar = "│";
    let mut out = paint(dim(), bar);
    let sl = spaces_string(lp);
    out.append(sl.as_str());
    out.append(line);
    let sr = spaces_string(rp);
    out.append(sr.as_str());
    let b2 = paint(dim(), bar);
    out.append(b2.as_str());
    out.append("\n");
    out
}

/// The top border with the title.
pub open spec fn top_border(corner_l: Seq<char>, corner_r: Seq<char>, title: Seq<char>, inner: int, pad: int, align: Align) -> Seq<char> {
    let d = crate::styles::spec_dim();
    let tlen = title.len() as int;
    painted(d, corner_l) + painted(d, fill('─', left_pad(tlen, inner, pad, align) as nat))
        + painted(crate::styles::spec_white(), title) + painted(
        d,
        fill('─', right_pad(tlen, inner, pad, align) as nat),
    ) + painted(d, corner_r) + "\n"@
}

fn top_exec(corner_l: &str, corner_r: &str, title: &str, inner: usize, pad: usize, align: Align) -> (r: String)
    requires
        align != Align::Center ==> title@.len() + pad <= usize::MAX,
    ensures
        r@ == top_border(corner_l@, corner_r@, title@, inner as int, pad as int, align),
{
    let title_len = chars_of(title).len();
    let (tl_pad, tr_pad) = pad_for(title_len, inner, pad, align);
    let mut out = paint(dim(), corner_l);
    let h1 = fill_string('─', tl_pad);
    let p1 = paint(dim(), h1.as_str());
    out.append(p1.as_str());
    let t = paint(white(), title);
    out.append(t.as_str());
    let h2 = fill_string('─', tr_pad);
    let p2 = paint(dim(), h2.as_str());
    out.append(p2.as_str());
    let c = paint(dim(), corner_r);
    out.append(c.as_str());
    out.append("\n");
    out
}

/// The last rows: an empty row when there is no body, then the bottom
/// border.
pub open spec fn bottom_part(empty_body: bool, corner_l: Seq<char>, corner_r: Seq<char>, inner: int) -> Seq<char> {
    let d = crate::styles::spec_dim();
    (if empty_body {
        painted(d, "│"@) + spaces(inner as nat) + painted(d, "│"@) + "\n"@
    } else {
        Seq::empty()
    }) + painted(d, corner_l) + painted(d, fill('─', inner as nat)) + painted(d, corner_r)
}

fn bottom_exec(empty_body: bool, corner_l: &str, corner_r: &str, inner: usize) -> (r: String)
    ensures
        r@ == bottom_part(empty_body, corner_l@, corner_r@, inner as int),
{
    let mut out = String::new();
    if empty_body {
        let bar = paint(dim(), "│");
        out.append(bar.as_str());
        let sp = spaces_string(inner);
        out.append(sp.as_str());
        out.append(bar.as_str());
        out.append("\n");
    }
    let b = paint(dim(), corner_l);
    out.append(b.as_str());
    let h3 = fill_string('─', inner);
    let p3 = paint(dim(), h3.as_str());
    out.append(p3.as_str());
    let e = paint(dim(), corner_r);
    out.append(e.as_str());
    out
}

impl BoxOptions {
    pub fn title_align(self, a: Align) -> (r: BoxOptions)
        ensures
            r == (BoxOptions { title_align: a, ..self }),
    {
        BoxOptions { title_align: a, ..self }
    }

    pub fn content_align(self, a: Align) -> (r: BoxOptions)
        ensures
            r == (BoxOptions { content_align: a, ..self }),
    {
        BoxOptions { content_align: a, ..self }
    }

    pub fn title_padding(self, n: usize) -> (r: BoxOptions)
        ensures
            r == (BoxOptions { title_padding: n, ..self }),
    {
        BoxOptions { title_padding: n, ..self }
    }

    pub fn content_padding(self, n: usize) -> (r: BoxOptions)
        ensures
            r == (BoxOptions { content_padding: n, ..self }),
    {
        BoxOptions { content_padding: n, ..self }
    }

    pub fn width(self, n: usize) -> (r: BoxOptions)
        ensures
            r == (BoxOptions { width: Some(n), ..self }),
    {
        BoxOptions { width: Some(n), ..self }
    }

    pub fn rounded(self, v: bool) -> (r: BoxOptions)
        ensures
            r == (BoxOptions { rounded: v, ..self }),
    {
        BoxOptions { rounded: v, ..self }
    }

    /// The longest body line.
    pub open spec fn longest(&self) -> nat {
        max_len(lines_of(self.body@))
    }

    /// The width inside the borders: the given width, or the longest of
    /// the body and the padded title, plus the content padding on both
    /// sides.
    pub open spec fn inner(&self) -> int {
        match self.width {
            Some(w) => w as int,
            None => {
                let t = self.title@.len() + self.title_padding * 2;
                (if self.longest() >= t { self.longest() as int } else { t }) + self.content_padding
                    * 2
            },
        }
    }

    /// The sizes involved fit in `usize`.
    pub open spec fn fits(&self) -> bool {
        &&& self.title_align != Align::Center ==> self.title@.len() + self.title_padding
            <= usize::MAX
        &&& self.content_align != Align::Center ==> self.longest() + self.content_padding
            <= usize::MAX
        &&& self.width is None ==> self.inner() <= usize::MAX
    }

    /// The body rows of `ls`, each ending in a newline.
    pub open spec fn body_rows(&self, ls: Seq<Seq<char>>) -> Seq<char> {
        box_rows(ls, self.inner(), self.content_padding as int, self.content_align)
    }

    /// The whole box, rows separated by newlines.
    pub open spec fn spec_render(&self) -> Seq<char> {
        let (tl, tr, bl, br) = if self.rounded {
            ("╭"@, "╮"@, "╰"@, "╯"@)
        } else {
            ("┌"@, "┐"@, "└"@, "┘"@)
        };
        let ls = lines_of(self.body@);
        top_border(tl, tr, self.title@, self.inner(), self.title_padding as int, self.title_align)
            + self.body_rows(ls) + bottom_part(ls.len() == 0, bl, br, self.inner())
    }

    /// The box as text, rows separated by newlines.
    pub fn render(&self) -> (r: String)
        requires
            self.fits(),
        ensures
            r@ == self.spec_render(),
    {
        let rounded = self.rounded;
        let tl = if rounded { "╭" } else { "┌" };
        let tr = if rounded { "╮" } else { "┐" };
        let bl = if rounded { "╰" } else { "└" };
        let br = if rounded { "╯" } else { "┘" };
        let v = "│";
        let body_lines = lines(self.body.as_str());
        let ghost ls = lines_of(self.body@);
        let mut longest: usize = 0;
        let mut i: usize = 0;
        while i < body_lines.len()
            invariant
                body_lines@.map_values(|x: String| x@) == ls,
                0 <= i <= body_lines@.len(),
                longest == max_len(ls.take(i as int)),
            decreases body_lines@.len() - i,
        {
            let l = chars_of(body_lines[i].as_str()).len();
            proof {
                assert(ls[i as int] == body_lines@[i as int]@);
                assert(ls.take(i + 1).drop_last() =~= ls.take(i as int));
            }
            if l > longest {
                longest = l;
            }
            i += 1;
        }
        proof {
            assert(ls.take(ls.len() as int) =~= ls);
        }
        let title_len = chars_of(self.title.as_str()).len();
        let inner = match self.width {
            Some(w) => w,
            None => {
                let t = title_len + self.title_padding * 2;
                (if longest >= t { longest } else { t }) + self.content_padding * 2
            },
        };
        let mut out = top_exec(tl, tr, self.title.as_str(), inner, self.title_padding, self.title_align);
        let ghost top = out@;
        let mut k: usize = 0;
        while k < body_lines.len()
            invariant
                body_lines@.map_values(|x: String| x@) == ls,
                longest == max_len(ls),
                ls == lines_of(self.body@),
                self.content_align != Align::Center ==> longest + self.content_padding <= usize::MAX,
                0 <= k <= body_lines@.len(),
                out@ == top + box_rows(ls.take(k as int), inner as int, self.content_padding as int, self.content_align),
            decreases body_lines@.len() - k,
        {
            proof {
                assert(ls[k as int] == body_lines@[k as int]@);
                super::theme::lemma_max_len(ls, k as int);
                assert(ls.take(k + 1).drop_last() =~= ls.take(k as int));
            }
            let row = box_row_exec(body_lines[k].as_str(), inner, self.content_padding, self.content_align);
            out.append(row.as_str());
            k += 1;
        }
        proof {
            assert(ls.take(ls.len() as int) =~= ls);
        }
        let bottom = bottom_exec(body_lines.len() == 0, bl, br, inner);
        out.append(bottom.as_str());
        out
    }
}

} // verus!

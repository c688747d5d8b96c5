//! Download progress lines: one styled line per finished download, the
//! URL cut from the left to fit the terminal.
//!
//! The byte sizes shown are formatted by the caller (they are decimal
//! fractions); everything else on the line is laid out here.

use vstd::prelude::*;
use vstd::utf8::encode_utf8;
use crate::strutil::{chars_of, decimal, fmt_pad_right, fmt_usize, owned, pad_right, string_of_range};
use crate::styles::{cyan, dim, err, paint, painted, spec_cyan, spec_dim, spec_err, BRANCH};

verus! {

broadcast use vstd::string::group_string_axioms;

/// The length of `s` in UTF-8 bytes, as `str::len` reports it.
pub open spec fn byte_len(s: Seq<char>) -> int {
    (encode_utf8(s).len() as usize) as int
}

/// `url` as shown in at most `max_len` characters: whole when it fits,
/// else `…` followed by its last `max_len - 1` characters.
pub open spec fn truncated_url(url: Seq<char>, max_len: nat) -> Seq<char> {
    let keep = if max_len >= 1 { max_len - 1 } else { 0 };
    if url.len() <= max_len {
        url
    } else {
        "…"@ + url.subrange(url.len() - keep, url.len() as int)
    }
}

/// Cut a URL to `max_len` characters, keeping its end visible.
pub fn truncate_url(url: &str, max_len: usize) -> (r: String)
    ensures
        r@ == truncated_url(url@, max_len as nat),
{
    let v = chars_of(url);
    let n = v.len();
    if n <= max_len {
        return owned(url);
    }
    let keep = if max_len >= 1 { max_len - 1 } else { 0 };
    let tail = string_of_range(&v, n - keep, n);
    let mut out = owned("…");
    proof {
        reveal_strlit("…");
    }
    out.append(tail.as_str());
    out
}

/// The counter `(n/total)`, dimmed.
pub open spec fn counter_text(n: nat, total: nat) -> Seq<char> {
    painted(spec_dim(), "("@ + decimal(n) + "/"@ + decimal(total) + ")"@)
}

/// A `[label ]` column: the label left-aligned in 6 cells.
pub open spec fn column_text(label: Seq<char>) -> Seq<char> {
    "["@ + pad_right(label, 6) + "]"@
}

/// The URL budget for a line whose fixed part is `fixed` bytes: what the
/// terminal leaves, but at least 20.
pub open spec fn url_budget(term_w: nat, fixed: int) -> nat {
    let left = if term_w >= fixed { term_w - fixed } else { 0 };
    if left >= 20 { left as nat } else { 20 }
}

/// The fixed width beside the URL on a success line.
pub open spec fn ok_fixed(local: Seq<char>, size: Seq<char>) -> int {
    3 + 8 + 8 + 4 + byte_len(local) + byte_len(size) + 12
}

/// The fixed width beside the URL on a failure line.
pub open spec fn fail_fixed(error: Seq<char>) -> int {
    3 + 8 + 8 + 4 + byte_len(error) + 6
}

fn budget_exec(term_w: usize, fixed: usize) -> (r: usize)
    ensures
        r == url_budget(term_w as nat, fixed as int),
{
    let left = if term_w >= fixed { term_w - fixed } else { 0 };
    if left >= 20 { left } else { 20 }
}

/// The URL budget of a success line (see [`ok_fixed`]).
pub fn ok_url_budget(local: &str, size: &str, term_w: usize) -> (r: usize)
    requires
        ok_fixed(local@, size@) <= usize::MAX,
    ensures
        r == url_budget(term_w as nat, ok_fixed(local@, size@)),
{
    budget_exec(term_w, 3 + 8 + 8 + 4 + local.len() + size.len() + 12)
}

/// The URL budget of a failure line (see [`fail_fixed`]).
pub fn fail_url_budget(error: &str, term_w: usize) -> (r: usize)
    requires
        fail_fixed(error@) <= usize::MAX,
    ensures
        r == url_budget(term_w as nat, fail_fixed(error@)),
{
    budget_exec(term_w, 3 + 8 + 8 + 4 + error.len() + 6)
}

/// A success line.
pub open spec fn ok_text(
    n: nat,
    total: nat,
    kind: Seq<char>,
    source: Seq<char>,
    url: Seq<char>,
    local: Seq<char>,
    size: Seq<char>,
    term_w: nat,
) -> Seq<char> {
    let shown = truncated_url(url, url_budget(term_w, ok_fixed(local, size)));
    "   "@ + counter_text(n, total) + "  "@ + painted(spec_dim(), column_text(kind)) + "  "@
        + painted(spec_dim(), column_text(source)) + "  "@ + painted(spec_dim(), shown) + "  "@
        + painted(spec_dim(), "→"@) + "  "@ + painted(spec_cyan(), local) + "  "@ + painted(
        spec_dim(),
        "["@ + size + "]"@,
    )
}

/// A failure line.
pub open spec fn fail_text(
    n: nat,
    total: nat,
    kind: Seq<char>,
    url: Seq<char>,
    error: Seq<char>,
    term_w: nat,
) -> Seq<char> {
    let shown = truncated_url(url, url_budget(term_w, fail_fixed(error)));
    "   "@ + counter_text(n, total) + "  "@ + painted(spec_err(), column_text(kind)) + "  "@
        + painted(spec_err(), "[error ]"@) + "  "@ + painted(spec_dim(), shown) + "  "@ + painted(
        spec_err(),
        "("@ + error + ")"@,
    )
}

/// Tracks how many of `total` downloads have finished.
pub struct Progress {
    total: usize,
    current: usize,
}

fn counter_exec(n: usize, total: usize) -> (r: String)
    ensures
        r@ == counter_text(n as nat, total as nat),
{
    let mut t = owned("(");
    proof {
        reveal_strlit("(");
    }
    let a = fmt_usize(n);
    t.append(a.as_str());
    t.append("/");
    let b = fmt_usize(total);
    t.append(b.as_str());
    t.append(")");
    paint(dim(), t.as_str())
}

fn column_exec(label: &str) -> (r: String)
    ensures
        r@ == column_text(label@),
{
    let mut t = owned("[");
    proof {
        reveal_strlit("[");
    }
    let p = fmt_pad_right(label, 6);
    t.append(p.as_str());
    t.append("]");
    t
}

impl Progress {
    /// Downloads finished so far.
    pub closed spec fn current(&self) -> usize {
        self.current
    }

    /// Downloads expected.
    pub closed spec fn total(&self) -> usize {
        self.total
    }

    /// A tracker for `total` downloads, none finished.
    pub fn new(total: usize) -> (r: Progress)
        ensures
            r.total() == total,
            r.current() == 0,
    {
        Progress { total, current: 0 }
    }

    /// Count one more download and give its success line: the counter,
    /// the kind and source columns, the URL cut to fit `term_w`, an arrow,
    /// the local path and the (formatted) size.
    pub fn ok(&mut self, kind: &str, source: &str, url: &str, local: &str, size: &str, term_w: usize) -> (r: String)
        requires
            old(self).current() < usize::MAX,
            ok_fixed(local@, size@) <= usize::MAX,
        ensures
            final(self).current() == old(self).current() + 1,
            final(self).total() == old(self).total(),
            r@ == ok_text(
                final(self).current() as nat,
                old(self).total() as nat,
                kind@,
                source@,
                url@,
                local@,
                size@,
                term_w as nat,
            ),
    {
        self.current = self.current + 1;
        let n = self.current;
        let counter = counter_exec(n, self.total);
        let k = column_exec(kind);
        let kind_s = paint(dim(), k.as_str());
        let s = column_exec(source);
        let src_s = paint(dim(), s.as_str());
        let arrow = paint(dim(), "→");
        let local_s = paint(cyan(), local);
        let mut sz = owned("[");
        proof {
            reveal_strlit("[");
        }
        sz.append(size);
        sz.append("]");
        let size_s = paint(dim(), sz.as_str());
        let budget = ok_url_budget(local, size, term_w);
        let shown = truncate_url(url, budget);
        let url_s = paint(dim(), shown.as_str());
        let mut out = owned("   ");
        proof {
            reveal_strlit("   ");
        }
        out.append(counter.as_str());
        out.append("  ");
        out.append(kind_s.as_str());
        out.append("  ");
        out.append(src_s.as_str());
        out.append("  ");
        out.append(url_s.as_str());
        out.append("  ");
        out.append(arrow.as_str());
        out.append("  ");
        out.append(local_s.as_str());
        out.append("  ");
        out.append(size_s.as_str());
        out
    }

    /// Count one more download and give its failure line, aligned with the
    /// success lines.
    pub fn fail(&mut self, kind: &str, url: &str, error: &str, term_w: usize) -> (r: String)
        requires
            old(self).current() < usize::MAX,
            fail_fixed(error@) <= usize::MAX,
        ensures
            final(self).current() == old(self).current() + 1,
            final(self).total() == old(self).total(),
            r@ == fail_text(
                final(self).current() as nat,
                old(self).total() as nat,
                kind@,
                url@,
                error@,
                term_w as nat,
            ),
    {
        self.current = self.current + 1;
        let n = self.current;
        let counter = counter_exec(n, self.total);
        let budget = fail_url_budget(error, term_w);
        let shown = truncate_url(url, budget);
        let url_s = paint(dim(), shown.as_str());
        let k = column_exec(kind);
        let kind_s = paint(err(), k.as_str());
        let e = paint(err(), "[error ]");
        let mut em = owned("(");
        proof {
            reveal_strlit("(");
        }
        em.append(error);
        em.append(")");
        let err_s = paint(err(), em.as_str());
        let mut out = owned("   ");
        proof {
            reveal_strlit("   ");
        }
        out.append(counter.as_str());
        out.append("  ");
        out.append(kind_s.as_str());
        out.append("  ");
        out.append(e.as_str());
        out.append("  ");
        out.append(url_s.as_str());
        out.append("  ");
        out.append(err_s.as_str());
        out
    }

    /// The blank line after the download block.
    pub fn finish(&self) -> (r: String)
        ensures
            r@ == Seq::<char>::empty(),
    {
        String::new()
    }
}

/// A sub-step line: a dim branch, the URL and an arrow, the local path in
/// cyan.
pub fn substep(url: &str, local: &str) -> (r: String)
    ensures
        r@ == "      "@ + painted(spec_dim(), BRANCH@) + "  "@ + painted(spec_dim(), url@) + "  "@
            + painted(spec_dim(), "→"@) + "  "@ + painted(spec_cyan(), local@),
{
    let mut out = owned("      ");
    proof {
        reveal_strlit("      ");
    }
    let b = paint(dim(), BRANCH);
    out.append(b.as_str());
    out.append("  ");
    let u = paint(dim(), url);
    out.append(u.as_str());
    out.append("  ");
    let a = paint(dim(), "→");
    out.append(a.as_str());
    out.append("  ");
    let l = paint(cyan(), local);
    out.append(l.as_str());
    out
}

} // verus!

//! Framed log messages: a symbol on the first line, `│` on the others, a
//! connector row above.
//!
//! Each function returns the rows to print, in order.

use vstd::prelude::*;
use crate::strutil::{lines, lines_of};
use crate::styles::{dim, paint, painted, white};
use super::settings::Settings;
use super::theme::BAR;

verus! {

broadcast use vstd::string::group_string_axioms;

pub const S_INFO: &'static str = "●";

pub const S_SUCCESS: &'static str = "◆";

pub const S_STEP: &'static str = "◇";

pub const S_WARN: &'static str = "▲";

pub const S_ERROR: &'static str = "■";

/// A continuation row: a bare `│` for an empty line, else `│  line`.
pub open spec fn continuation_row(l: Seq<char>) -> Seq<char> {
    if l.len() == 0 {
        painted(crate::styles::spec_dim(), BAR@)
    } else {
        painted(crate::styles::spec_dim(), BAR@) + "  "@ + l
    }
}

/// The rows of a message: a `│` connector, the symbol with the first line
/// (or alone, for an empty message), then the other lines.
pub open spec fn message_rows(msg: Seq<char>, symbol: Seq<char>) -> Seq<Seq<char>> {
    let ls = lines_of(msg);
    seq![painted(crate::styles::spec_dim(), BAR@)] + if ls.len() == 0 {
        seq![symbol]
    } else {
        seq![symbol + "  "@ + painted(crate::styles::spec_white(), ls[0])] + ls.drop_first().map_values(
            |l: Seq<char>| continuation_row(l),
        )
    }
}

/// The rows for `msg` with `symbol` in the first column.
pub fn message(msg: &str, symbol: &str) -> (r: Vec<String>)
    ensures
        r@.map_values(|x: String| x@) == message_rows(msg@, symbol@),
{
    let ls = lines(msg);
    let ghost lv = lines_of(msg@);
    let mut out: Vec<String> = Vec::new();
    out.push(paint(dim(), BAR));
    if ls.len() == 0 {
        out.push(crate::strutil::owned(symbol));
        proof {
            assert(out@.map_values(|x: String| x@) =~= message_rows(msg@, symbol@));
        }
        return out;
    }
    let mut first = crate::strutil::owned(symbol);
    first.append("  ");
    let w = paint(white(), ls[0].as_str());
    first.append(w.as_str());
    out.push(first);
    let ghost head = out@.map_values(|x: String| x@);
    let mut i: usize = 1;
    while i < ls.len()
        invariant
            ls@.map_values(|x: String| x@) == lv,
            1 <= i <= ls@.len(),
            out@.map_values(|x: String| x@) == head + lv.drop_first().take(i - 1).map_values(
                |l: Seq<char>| continuation_row(l),
            ),
        decreases ls@.len() - i,
    {
        let mut row = paint(dim(), BAR);
        if !ls[i].as_str().is_empty() {
            row.append("  ");
            row.append(ls[i].as_str());
        }
        let ghost prev = out@;
        out.push(row);
        proof {
            assert(lv[i as int] == ls@[i as int]@);
            assert(out@.map_values(|x: String| x@) =~= prev.map_values(|x: String| x@).push(row@));
            assert(lv.drop_first().take(i as int) =~= lv.drop_first().take(i - 1).push(lv[i as int]));
        }
        i += 1;
    }
    proof {
        assert(lv.drop_first().take(lv.len() - 1) =~= lv.drop_first());
        assert(out@.map_values(|x: String| x@) =~= message_rows(msg@, symbol@));
    }
    out
}

/// Neutral info, with an accented `●`.
pub fn info(msg: &str, s: &Settings) -> (r: Vec<String>)
    ensures
        r@.map_values(|x: String| x@) == message_rows(msg@, painted(s.colors.accent, S_INFO@)),
{
    let sym = paint(s.colors.accent, S_INFO);
    message(msg, sym.as_str())
}

/// Successful completion, with a `◆` in the success colour.
pub fn success(msg: &str, s: &Settings) -> (r: Vec<String>)
    ensures
        r@.map_values(|x: String| x@) == message_rows(msg@, painted(s.colors.success, S_SUCCESS@)),
{
    let sym = paint(s.colors.success, S_SUCCESS);
    message(msg, sym.as_str())
}

/// One step completed, with a `◇` in the success colour.
pub fn step(msg: &str, s: &Settings) -> (r: Vec<String>)
    ensures
        r@.map_values(|x: String| x@) == message_rows(msg@, painted(s.colors.success, S_STEP@)),
{
    let sym = paint(s.colors.success, S_STEP);
    message(msg, sym.as_str())
}

/// A warning, with a `▲` in the error colour.
pub fn warn(msg: &str, s: &Settings) -> (r: Vec<String>)
    ensures
        r@.map_values(|x: String| x@) == message_rows(msg@, painted(s.colors.error, S_WARN@)),
{
    let sym = paint(s.colors.error, S_WARN);
    message(msg, sym.as_str())
}

/// Same as [`warn`].
pub fn warning(msg: &str, s: &Settings) -> (r: Vec<String>)
    ensures
        r@.map_values(|x: String| x@) == message_rows(msg@, painted(s.colors.error, S_WARN@)),
{
    warn(msg, s)
}

/// An error, with a `■` in the cancel colour.
pub fn error(msg: &str, s: &Settings) -> (r: Vec<String>)
    ensures
        r@.map_values(|x: String| x@) == message_rows(msg@, painted(s.colors.cancel, S_ERROR@)),
{
    let sym = paint(s.colors.cancel, S_ERROR);
    message(msg, sym.as_str())
}

} // verus!

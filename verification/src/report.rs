//! Report lines for command-line tools: the header with its badge, phase
//! and step lines, and the `✓` line of a written file.

use vstd::prelude::*;
use crate::strutil::{fmt_pad_right, owned, pad_right};
use crate::styles::{
    accent, dim, ok, paint, painted, spec_accent, spec_dim, spec_ok, spec_white, white, Style,
    BULLET, CHECK, PHASE,
};

verus! {

broadcast use vstd::string::group_string_axioms;

/// The header rows: the name in the badge with the version beside it,
/// then `about — tagline` dimmed, between blank rows.
pub fn header_rows(name: &str, version: &str, about: &str, tagline: &str, badge: Style) -> (r: Vec<String>)
    ensures
        r@.map_values(|x: String| x@) == seq![
            Seq::<char>::empty(),
            "  "@ + painted(badge, " "@ + name@ + " "@) + "  "@ + painted(spec_dim(), "v"@ + version@),
            " "@ + painted(spec_dim(), about@ + " — "@ + tagline@),
            Seq::<char>::empty(),
        ],
{
    let mut b = owned(" ");
    proof {
        reveal_strlit(" ");
        reveal_strlit("v");
        reveal_strlit("  ");
    }
    b.append(name);
    b.append(" ");
    let mut v = owned("v");
    v.append(version);
    let mut first = owned("  ");
    let pb = paint(badge, b.as_str());
    first.append(pb.as_str());
    first.append("  ");
    let pv = paint(dim(), v.as_str());
    first.append(pv.as_str());
    let mut sub = owned(about);
    sub.append(" — ");
    sub.append(tagline);
    let mut second = owned(" ");
    let ps = paint(dim(), sub.as_str());
    second.append(ps.as_str());
    let mut out: Vec<String> = Vec::new();
    out.push(String::new());
    out.push(first);
    out.push(second);
    out.push(String::new());
    proof {
        assert(out@.map_values(|x: String| x@) =~= seq![
            Seq::<char>::empty(),
            "  "@ + painted(badge, " "@ + name@ + " "@) + "  "@ + painted(spec_dim(), "v"@ + version@),
            " "@ + painted(spec_dim(), about@ + " — "@ + tagline@),
            Seq::<char>::empty(),
        ]);
    }
    out
}

/// A phase line: an accented `▶`, the tag (its painted text padded to 6
/// characters) and the message dimmed.
pub fn phase_row(tag: &str, msg: &str) -> (r: String)
    ensures
        r@ == " "@ + painted(spec_accent(), PHASE@) + "  "@ + pad_right(painted(spec_accent(), tag@), 6)
            + "  "@ + painted(spec_dim(), msg@),
{
    let mut out = owned(" ");
    proof {
        reveal_strlit(" ");
    }
    let p = paint(accent(), PHASE);
    out.append(p.as_str());
    out.append("  ");
    let t = paint(accent(), tag);
    let tp = fmt_pad_right(t.as_str(), 6);
    out.append(tp.as_str());
    out.append("  ");
    let m = paint(dim(), msg);
    out.append(m.as_str());
    out
}

/// The rows of a step: a blank row, then a white `▸` and the message.
pub fn step_rows(msg: &str) -> (r: Vec<String>)
    ensures
        r@.map_values(|x: String| x@) == seq![
            Seq::<char>::empty(),
            " "@ + painted(spec_white(), BULLET@) + "  "@ + painted(spec_white(), msg@),
        ],
{
    let mut row = owned(" ");
    proof {
        reveal_strlit(" ");
    }
    let b = paint(white(), BULLET);
    row.append(b.as_str());
    row.append("  ");
    let m = paint(white(), msg);
    row.append(m.as_str());
    let mut out: Vec<String> = Vec::new();
    out.push(String::new());
    out.push(row);
    proof {
        assert(out@.map_values(|x: String| x@) =~= seq![
            Seq::<char>::empty(),
            " "@ + painted(spec_white(), BULLET@) + "  "@ + painted(spec_white(), msg@),
        ]);
    }
    out
}

/// The line of a finished file: a green `✓` and the path dimmed.
pub fn ok_row(path: &str) -> (r: String)
    ensures
        r@ == "   "@ + painted(spec_ok(), CHECK@) + "  "@ + painted(spec_dim(), path@),
{
    let mut out = owned("   ");
    proof {
        reveal_strlit("   ");
    }
    let c = paint(ok(), CHECK);
    out.append(c.as_str());
    out.append("  ");
    let p = paint(dim(), path);
    out.append(p.as_str());
    out
}

} // verus!

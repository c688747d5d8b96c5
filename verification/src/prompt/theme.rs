//! Visual tokens for prompt rendering — every line a prompt draws is built
//! here from the settings' colour palette.

use vstd::prelude::*;
use crate::strutil::{
    chars_of, lines, lines_of, owned, repeat, repeat_string, spaces, spaces_string,
};
use crate::styles::{paint, painted, Style};
use super::settings::Settings;

verus! {

broadcast use vstd::string::group_string_axioms;

// ── symbols ──────────────────────────────────────────────────────────────────

pub const TOP: &'static str = "┌";
pub const BAR: &'static str = "│";
pub const BOT: &'static str = "└";
pub const STEP_OK: &'static str = "◇";
pub const STEP: &'static str = "◆";
pub const STEP_ERROR: &'static str = "▲";
pub const CANCEL: &'static str = "■";
pub const CURSOR: &'static str = "❯";
pub const RADIO_ON: &'static str = "●";
pub const RADIO_OFF: &'static str = "○";
pub const CHECK_ON: &'static str = "◼";
pub const CHECK_OFF: &'static str = "◻";
pub const CHECK: &'static str = "✓";
pub const CROSS: &'static str = "✘";

/// Style of the question text: bold or plain depending on the settings.
pub open spec fn spec_header_style(s: &Settings) -> Style {
    if s.bold_header {
        s.colors.header
    } else {
        s.colors.header_plain
    }
}

fn header_style(s: &Settings) -> (r: Style)
    ensures
        r == spec_header_style(s),
{
    if s.bold_header {
        s.colors.header
    } else {
        s.colors.header_plain
    }
}

// ── frame helpers (intro / outro / note / cancel) ────────────────────────────

pub open spec fn spec_intro(text: Seq<char>, s: &Settings) -> Seq<char> {
    painted(s.colors.dim, TOP@) + "  "@ + painted(s.colors.intro_badge, " "@ + text + " "@) + "\n"@
        + painted(s.colors.dim, BAR@)
}

/// `┌  <title pill>` followed by a connector bar.
pub fn intro(text: &str, s: &Settings) -> (r: String)
    ensures
        r@ == spec_intro(text@, s),
{
    let mut out = paint(s.colors.dim, TOP);
    out.append("  ");
    let mut pill = owned(" ");
    pill.append(text);
    pill.append(" ");
    let p = paint(s.colors.intro_badge, pill.as_str());
    out.append(p.as_str());
    out.append("\n");
    let b = paint(s.colors.dim, BAR);
    out.append(b.as_str());
    out
}

pub open spec fn spec_outro(text: Seq<char>, s: &Settings) -> Seq<char> {
    painted(s.colors.dim, BAR@) + "\n"@ + painted(s.colors.dim, BOT@) + "  "@ + painted(
        s.colors.title,
        text,
    )
}

/// A connector bar, then `└  <text>` in the title style.
pub fn outro(text: &str, s: &Settings) -> (r: String)
    ensures
        r@ == spec_outro(text@, s),
{
    let mut out = paint(s.colors.dim, BAR);
    out.append("\n");
    let b = paint(s.colors.dim, BOT);
    out.append(b.as_str());
    out.append("  ");
    let t = paint(s.colors.title, text);
    out.append(t.as_str());
    out
}

pub open spec fn spec_cancel(text: Seq<char>, s: &Settings) -> Seq<char> {
    painted(s.colors.dim, BAR@) + "\n"@ + painted(s.colors.cancel, CANCEL@) + "  "@ + painted(
        s.colors.cancel,
        text,
    )
}

/// A connector bar, then `■  <text>` in the cancel style.
pub fn cancel(text: &str, s: &Settings) -> (r: String)
    ensures
        r@ == spec_cancel(text@, s),
{
    let mut out = paint(s.colors.dim, BAR);
    out.append("\n");
    let g = paint(s.colors.cancel, CANCEL);
    out.append(g.as_str());
    out.append("  ");
    let t = paint(s.colors.cancel, text);
    out.append(t.as_str());
    out
}

/// The longest length among `ls`, or 0.
pub open spec fn max_len(ls: Seq<Seq<char>>) -> nat
    decreases ls.len(),
{
    if ls.len() == 0 {
        0
    } else {
        let rest = max_len(ls.drop_last());
        if ls.last().len() > rest {
            ls.last().len()
        } else {
            rest
        }
    }
}

/// Width of the note's content column: the widest of the body lines, the
/// title, and a floor of 20.
pub open spec fn note_inner(title: Seq<char>, body: Seq<char>) -> nat {
    let m = max_len(lines_of(body));
    let a = if m >= title.len() { m } else { title.len() };
    if a >= 20 { a } else { 20 }
}

/// The framed body rows of a note, each ending in a newline.
pub open spec fn note_rows(ls: Seq<Seq<char>>, inner: nat, s: &Settings) -> Seq<char>
    decreases ls.len(),
{
    if ls.len() == 0 {
        Seq::empty()
    } else {
        note_rows(ls.drop_last(), inner, s) + painted(s.colors.dim, BAR@) + "  "@ + ls.last()
            + spaces((inner - ls.last().len()) as nat) + "  "@ + painted(s.colors.dim, BAR@)
            + "\n"@
    }
}

pub open spec fn spec_note(title: Seq<char>, body: Seq<char>, s: &Settings) -> Seq<char> {
    let inner = note_inner(title, body);
    let blank = spaces(inner + 4);
    painted(s.colors.dim, TOP@) + "  "@ + painted(s.colors.title, title) + " "@ + painted(
        s.colors.dim,
        repeat("─"@, (inner + 1 - title.len()) as nat),
    ) + painted(s.colors.dim, "┐"@) + "\n"@ + painted(s.colors.dim, BAR@) + blank + painted(
        s.colors.dim,
        BAR@,
    ) + "\n"@ + note_rows(lines_of(body), inner, s) + painted(s.colors.dim, BAR@) + blank
        + painted(s.colors.dim, BAR@) + "\n"@ + painted(s.colors.dim, BOT@) + painted(
        s.colors.dim,
        repeat("─"@, inner + 4),
    ) + painted(s.colors.dim, "┘"@)
}

pub proof fn lemma_max_len(ls: Seq<Seq<char>>, k: int)
    requires
        0 <= k < ls.len(),
    ensures
        ls[k].len() <= max_len(ls),
    decreases ls.len(),
{
    if k < ls.len() - 1 {
        lemma_max_len(ls.drop_last(), k);
    }
}

proof fn lemma_max_len_le(ls: Seq<Seq<char>>, bound: nat)
    requires
        forall|k: int| 0 <= k < ls.len() ==> ls[k].len() <= bound,
    ensures
        max_len(ls) <= bound,
    decreases ls.len(),
{
    if ls.len() > 0 {
        lemma_max_len_le(ls.drop_last(), bound);
    }
}

/// A framed informational note: a title in the top border, the body lines
/// padded to a common width, and a closing border.
pub fn note(title: &str, body: &str, s: &Settings) -> (r: String)
    requires
        title@.len() < usize::MAX / 4,
        body@.len() < usize::MAX / 4,
    ensures
        r@ == spec_note(title@, body@, s),
{
    let body_lines = lines(body);
    let ghost ls = lines_of(body@);
    let mut m: usize = 0;
    let mut i: usize = 0;
    proof {
        assert forall|k: int| 0 <= k < ls.len() implies ls[k].len() <= body@.len() by {
            lemma_line_len(body@, k);
        }
    }
    while i < body_lines.len()
        invariant
            body_lines@.map_values(|x: String| x@) == ls,
            0 <= i <= body_lines.len(),
            m == max_len(ls.take(i as int)),
            forall|k: int| 0 <= k < ls.len() ==> ls[k].len() <= body@.len(),
            body@.len() < usize::MAX / 4,
        decreases body_lines.len() - i,
    {
        let l = chars_of(body_lines[i].as_str()).len();
        proof {
            assert(ls[i as int] == body_lines@[i as int]@);
            assert(ls.take(i + 1).drop_last() =~= ls.take(i as int));
        }
        if l > m {
            m = l;
        }
        i += 1;
    }
    proof {
        assert(ls.take(ls.len() as int) =~= ls);
    }
    let tl = chars_of(title).len();
    let a = if m >= tl { m } else { tl };
    let inner = if a >= 20 { a } else { 20 };
    proof {
        lemma_max_len_le(ls, body@.len());
        assert forall|k: int| 0 <= k < ls.len() implies ls[k].len() <= inner by {
            lemma_max_len(ls, k);
        }
    }
    let top_rule_len = inner + 1 - tl;
    let blank = spaces_string(inner + 4);
    let mut out = paint(s.colors.dim, TOP);
    out.append("  ");
    let t = paint(s.colors.title, title);
    out.append(t.as_str());
    out.append(" ");
    let rule = repeat_string("─", top_rule_len);
    let pr = paint(s.colors.dim, rule.as_str());
    out.append(pr.as_str());
    let corner = paint(s.colors.dim, "┐");
    out.append(corner.as_str());
    out.append("\n");
    let bar = paint(s.colors.dim, BAR);
    out.append(bar.as_str());
    out.append(blank.as_str());
    out.append(bar.as_str());
    out.append("\n");
    let ghost head = out@;
    let mut j: usize = 0;
    while j < body_lines.len()
        invariant
            body_lines@.map_values(|x: String| x@) == ls,
            0 <= j <= body_lines.len(),
            inner == note_inner(title@, body@),
            forall|k: int| 0 <= k < ls.len() ==> ls[k].len() <= inner,
            bar@ == painted(s.colors.dim, BAR@),
            out@ == head + note_rows(ls.take(j as int), inner as nat, s),
        decreases body_lines.len() - j,
    {
        let line = body_lines[j].as_str();
        let len = chars_of(line).len();
        proof {
            assert(ls[j as int] == body_lines@[j as int]@);
            assert(ls.take(j + 1).drop_last() =~= ls.take(j as int));
        }
        out.append(bar.as_str());
        out.append("  ");
        out.append(line);
        let pad = spaces_string(inner - len);
        out.append(pad.as_str());
        out.append("  ");
        out.append(bar.as_str());
        out.append("\n");
        j += 1;
    }
    proof {
        assert(ls.take(ls.len() as int) =~= ls);
    }
    out.append(bar.as_str());
    out.append(blank.as_str());
    out.append(bar.as_str());
    out.append("\n");
    let bot = paint(s.colors.dim, BOT);
    out.append(bot.as_str());
    let rule2 = repeat_string("─", inner + 4);
    let pr2 = paint(s.colors.dim, rule2.as_str());
    out.append(pr2.as_str());
    let corner2 = paint(s.colors.dim, "┘");
    out.append(corner2.as_str());
    out
}

proof fn lemma_line_len(body: Seq<char>, k: int)
    requires
        0 <= k < lines_of(body).len(),
    ensures
        lines_of(body)[k].len() <= body.len(),
{
    crate::strutil::lemma_lines_len(body, k);
}

// ── prompt header lines ──────────────────────────────────────────────────────

pub open spec fn spec_label_state(text: Seq<char>, error: bool, s: &Settings) -> Seq<char> {
    (if error {
        painted(s.colors.error, STEP_ERROR@)
    } else {
        painted(s.colors.accent, STEP@)
    }) + "  "@ + painted(spec_header_style(s), text)
}

/// The question line: `◆  text`, or `▲  text` in the error state.
pub fn label_state(text: &str, error: bool, s: &Settings) -> (r: String)
    ensures
        r@ == spec_label_state(text@, error, s),
{
    let mut out = if error {
        paint(s.colors.error, STEP_ERROR)
    } else {
        paint(s.colors.accent, STEP)
    };
    out.append("  ");
    let t = paint(header_style(s), text);
    out.append(t.as_str());
    out
}

/// The question line in its normal state.
pub fn label(text: &str, s: &Settings) -> (r: String)
    ensures
        r@ == spec_label_state(text@, false, s),
{
    label_state(text, false, s)
}

pub open spec fn spec_hint(text: Seq<char>, s: &Settings) -> Seq<char> {
    if text.len() == 0 {
        painted(s.colors.active, BAR@)
    } else {
        painted(s.colors.active, BAR@) + "  "@ + painted(s.colors.dim, text)
    }
}

/// A bar row with an optional dimmed hint.
pub fn hint(text: &str, s: &Settings) -> (r: String)
    ensures
        r@ == spec_hint(text@, s),
{
    let mut out = paint(s.colors.active, BAR);
    if !text.is_empty() {
        out.append("  ");
        let t = paint(s.colors.dim, text);
        out.append(t.as_str());
    }
    out
}

pub open spec fn spec_hint_inline(text: Option<Seq<char>>, s: &Settings) -> Seq<char> {
    match text {
        Some(h) => if h.len() > 0 {
            " "@ + painted(s.colors.dim, "("@ + h + ")"@)
        } else {
            Seq::empty()
        },
        None => Seq::empty(),
    }
}

/// ` (hint)` after an option label, or nothing.
pub fn hint_inline(text: Option<&str>, s: &Settings) -> (r: String)
    ensures
        r@ == spec_hint_inline(
            match text {
                Some(h) => Some(h@),
                None => None,
            },
            s,
        ),
{
    match text {
        Some(h) => {
            if h.is_empty() {
                String::new()
            } else {
                let mut inner = owned("(");
                inner.append(h);
                inner.append(")");
                let mut out = owned(" ");
                let p = paint(s.colors.dim, inner.as_str());
                out.append(p.as_str());
                out
            }
        },
        None => String::new(),
    }
}

pub open spec fn opt_view(o: Option<&str>) -> Option<Seq<char>> {
    match o {
        Some(h) => Some(h@),
        None => None,
    }
}

// ── option rows ──────────────────────────────────────────────────────────────

pub open spec fn spec_cursor(active: bool, text: Seq<char>, hint_text: Option<Seq<char>>, s: &Settings) -> Seq<char> {
    if active {
        painted(s.colors.active, BAR@) + "  "@ + painted(s.colors.accent, RADIO_ON@) + " "@
            + painted(spec_header_style(s), text) + spec_hint_inline(hint_text, s)
    } else {
        painted(s.colors.active, BAR@) + "  "@ + painted(s.colors.dim, RADIO_OFF@) + " "@
            + painted(s.colors.dim, text)
    }
}

/// A radio option row: `●` and the header style when active, `○` dimmed
/// otherwise.
pub fn cursor(active: bool, text: &str, hint_text: Option<&str>, s: &Settings) -> (r: String)
    ensures
        r@ == spec_cursor(active, text@, opt_view(hint_text), s),
{
    let mut out = paint(s.colors.active, BAR);
    out.append("  ");
    if active {
        let h = hint_inline(hint_text, s);
        let g = paint(s.colors.accent, RADIO_ON);
        out.append(g.as_str());
        out.append(" ");
        let t = paint(header_style(s), text);
        out.append(t.as_str());
        out.append(h.as_str());
    } else {
        let g = paint(s.colors.dim, RADIO_OFF);
        out.append(g.as_str());
        out.append(" ");
        let t = paint(s.colors.dim, text);
        out.append(t.as_str());
    }
    out
}

pub open spec fn spec_multi_option(
    active: bool,
    checked: bool,
    text: Seq<char>,
    hint_text: Option<Seq<char>>,
    s: &Settings,
) -> Seq<char> {
    let glyph = if checked { CHECK_ON@ } else { CHECK_OFF@ };
    if active {
        painted(s.colors.active, BAR@) + "  "@ + painted(s.colors.accent, glyph) + " "@ + painted(
            spec_header_style(s),
            text,
        ) + spec_hint_inline(hint_text, s)
    } else if checked {
        painted(s.colors.active, BAR@) + "  "@ + painted(s.colors.success, glyph) + " "@
            + painted(s.colors.dim, text)
    } else {
        painted(s.colors.active, BAR@) + "  "@ + painted(s.colors.dim, glyph) + " "@ + painted(
            s.colors.dim,
            text,
        )
    }
}

/// A checkbox option row.
pub fn multi_option(
    active: bool,
    checked: bool,
    text: &str,
    hint_text: Option<&str>,
    s: &Settings,
) -> (r: String)
    ensures
        r@ == spec_multi_option(active, checked, text@, opt_view(hint_text), s),
{
    let glyph = if checked { CHECK_ON } else { CHECK_OFF };
    let mut out = paint(s.colors.active, BAR);
    out.append("  ");
    if active {
        let h = hint_inline(hint_text, s);
        let g = paint(s.colors.accent, glyph);
        out.append(g.as_str());
        out.append(" ");
        let t = paint(header_style(s), text);
        out.append(t.as_str());
        out.append(h.as_str());
    } else if checked {
        let g = paint(s.colors.success, glyph);
        out.append(g.as_str());
        out.append(" ");
        let t = paint(s.colors.dim, text);
        out.append(t.as_str());
    } else {
        let g = paint(s.colors.dim, glyph);
        out.append(g.as_str());
        out.append(" ");
        let t = paint(s.colors.dim, text);
        out.append(t.as_str());
    }
    out
}

// ── input and status lines ───────────────────────────────────────────────────

pub open spec fn spec_text_input(value: Seq<char>, placeholder: Seq<char>, s: &Settings) -> Seq<char> {
    if value.len() == 0 {
        painted(s.colors.dim, BAR@) + "  "@ + painted(s.colors.dim, placeholder)
    } else {
        painted(s.colors.dim, BAR@) + "  "@ + painted(s.colors.input, value)
    }
}

/// An input row: the value, or the dimmed placeholder when it is empty.
pub fn text_input(value: &str, placeholder: &str, s: &Settings) -> (r: String)
    ensures
        r@ == spec_text_input(value@, placeholder@, s),
{
    let mut out = paint(s.colors.dim, BAR);
    out.append("  ");
    let t = if value.is_empty() {
        paint(s.colors.dim, placeholder)
    } else {
        paint(s.colors.input, value)
    };
    out.append(t.as_str());
    out
}

pub open spec fn spec_confirm_line(value: bool, s: &Settings) -> Seq<char> {
    let yes = if value {
        painted(s.colors.accent, "● Yes"@)
    } else {
        painted(s.colors.dim, "○ Yes"@)
    };
    let no = if !value {
        painted(s.colors.accent, "● No"@)
    } else {
        painted(s.colors.dim, "○ No"@)
    };
    painted(s.colors.dim, BAR@) + "  "@ + yes + " / "@ + no
}

/// The `● Yes / ○ No` row of a confirm prompt.
pub fn confirm_line(value: bool, s: &Settings) -> (r: String)
    ensures
        r@ == spec_confirm_line(value, s),
{
    let yes = if value {
        paint(s.colors.accent, "● Yes")
    } else {
        paint(s.colors.dim, "○ Yes")
    };
    let no = if !value {
        paint(s.colors.accent, "● No")
    } else {
        paint(s.colors.dim, "○ No")
    };
    let mut out = paint(s.colors.dim, BAR);
    out.append("  ");
    out.append(yes.as_str());
    out.append(" / ");
    out.append(no.as_str());
    out
}

pub open spec fn spec_error_line(msg: Seq<char>, s: &Settings) -> Seq<char> {
    painted(s.colors.dim, BAR@) + "  "@ + painted(s.colors.error, CROSS@) + " "@ + painted(
        s.colors.error,
        msg,
    )
}

/// `│  ✘ message` in the error style.
pub fn error_line(msg: &str, s: &Settings) -> (r: String)
    ensures
        r@ == spec_error_line(msg@, s),
{
    let mut out = paint(s.colors.dim, BAR);
    out.append("  ");
    let g = paint(s.colors.error, CROSS);
    out.append(g.as_str());
    out.append(" ");
    let m = paint(s.colors.error, msg);
    out.append(m.as_str());
    out
}

pub open spec fn spec_input_bar(error: bool, s: &Settings) -> Seq<char> {
    if error {
        painted(s.colors.error, BAR@)
    } else {
        painted(s.colors.active, BAR@)
    }
}

/// The bar in front of the input: error-coloured in the error state.
pub fn input_bar(error: bool, s: &Settings) -> (r: String)
    ensures
        r@ == spec_input_bar(error, s),
{
    if error {
        paint(s.colors.error, BAR)
    } else {
        paint(s.colors.active, BAR)
    }
}

pub open spec fn spec_frame_bot(error: Option<Seq<char>>, s: &Settings) -> Seq<char> {
    match error {
        Some(msg) => painted(s.colors.error, BOT@) + "  "@ + painted(s.colors.error, msg),
        None => painted(s.colors.active, BOT@),
    }
}

/// The closing `└` of the frame, carrying the error message when there is
/// one.
pub fn frame_bot(error: Option<&str>, s: &Settings) -> (r: String)
    ensures
        r@ == spec_frame_bot(opt_view(error), s),
{
    match error {
        Some(msg) => {
            let mut out = paint(s.colors.error, BOT);
            out.append("  ");
            let m = paint(s.colors.error, msg);
            out.append(m.as_str());
            out
        },
        None => paint(s.colors.active, BOT),
    }
}

// ── answered state ───────────────────────────────────────────────────────────

pub open spec fn spec_answered(label_text: Seq<char>, value: Seq<char>, s: &Settings) -> Seq<char> {
    painted(s.colors.success, STEP_OK@) + "  "@ + painted(spec_header_style(s), label_text)
        + "\r\n"@ + painted(s.colors.dim, BAR@) + "  "@ + painted(s.colors.input, value) + "\r\n"@
        + painted(s.colors.dim, BAR@)
}

/// The post-submission display: `◇  question`, `│  value`, `│`, joined by
/// CRLF.
pub fn answered(label_text: &str, value: &str, s: &Settings) -> (r: String)
    ensures
        r@ == spec_answered(label_text@, value@, s),
{
    let mut out = paint(s.colors.success, STEP_OK);
    out.append("  ");
    let l = paint(header_style(s), label_text);
    out.append(l.as_str());
    out.append("\r\n");
    let b = paint(s.colors.dim, BAR);
    out.append(b.as_str());
    out.append("  ");
    let v = paint(s.colors.input, value);
    out.append(v.as_str());
    out.append("\r\n");
    out.append(b.as_str());
    out
}

} // verus!

//! What a spinner draws: each animation frame and the final line. The
//! animation thread that redraws it runs outside.

use vstd::prelude::*;
use crate::strutil::{chars_of, decimal, fill, fill_string, fmt_u64, owned, string_of_range};
use crate::styles::{dim, paint, painted, white};
use super::settings::Settings;

verus! {

broadcast use vstd::string::group_string_axioms;

pub const STEP_SUBMIT: &'static str = "◇";

pub const STEP_CANCEL: &'static str = "■";

pub const STEP_ERROR: &'static str = "▲";

/// What follows the message while the spinner runs.
#[derive(Clone, Copy, Debug, PartialEq, Eq, Structural)]
pub enum Indicator {
    /// Up to three trailing dots.
    Dots,
    /// Elapsed time, `[1m 2s]`.
    Timer,
}

/// How a spinner ended.
#[derive(Clone, Copy, Debug, PartialEq, Eq, Structural)]
pub enum Status {
    Submit,
    Cancel,
    Error,
}

/// The animation frames, in order.
pub open spec fn frame_glyph_spec(i: nat) -> Seq<char> {
    if i % 4 == 0 {
        "◒"@
    } else if i % 4 == 1 {
        "◐"@
    } else if i % 4 == 2 {
        "◓"@
    } else {
        "◑"@
    }
}

/// The glyph of frame `i` (the four frames repeat).
pub fn frame_glyph(i: usize) -> (r: &'static str)
    ensures
        r@ == frame_glyph_spec(i as nat),
{
    let k = i % 4;
    if k == 0 {
        "◒"
    } else if k == 1 {
        "◐"
    } else if k == 2 {
        "◓"
    } else {
        "◑"
    }
}

/// `s` without its trailing dots.
pub open spec fn trimmed_dots(s: Seq<char>) -> Seq<char>
    decreases s.len(),
{
    if s.len() > 0 && s.last() == '.' {
        trimmed_dots(s.drop_last())
    } else {
        s
    }
}

/// The trimmed message never ends in a dot, and it is a prefix of the
/// message with only dots after it.
pub proof fn law_trimmed_dots(s: Seq<char>)
    ensures
        trimmed_dots(s).len() <= s.len(),
        trimmed_dots(s).len() == 0 || trimmed_dots(s).last() != '.',
        trimmed_dots(s) == s.take(trimmed_dots(s).len() as int),
        forall|k: int| trimmed_dots(s).len() <= k < s.len() ==> s[k] == '.',
    decreases s.len(),
{
    if s.len() > 0 && s.last() == '.' {
        law_trimmed_dots(s.drop_last());
        assert(s.drop_last().take(trimmed_dots(s).len() as int) =~= s.take(trimmed_dots(s).len() as int));
        assert forall|k: int| trimmed_dots(s).len() <= k < s.len() implies s[k] == '.' by {
            if k < s.len() - 1 {
                assert(s[k] == s.drop_last()[k]);
            }
        }
    } else {
        assert(s.take(s.len() as int) =~= s);
    }
}

/// `s` without its trailing dots (the spinner adds its own).
pub fn trim_dots(s: &str) -> (r: String)
    ensures
        r@ == trimmed_dots(s@),
{
    let v = chars_of(s);
    let mut n: usize = v.len();
    proof {
        assert(v@.subrange(0, n as int) =~= v@);
    }
    while n > 0 && v[n - 1] == '.'
        invariant
            v@ == s@,
            n <= v@.len(),
            trimmed_dots(s@) == trimmed_dots(v@.subrange(0, n as int)),
        decreases n,
    {
        proof {
            assert(v@.subrange(0, n as int).drop_last() =~= v@.subrange(0, n - 1));
        }
        n -= 1;
    }
    string_of_range(&v, 0, n)
}

/// `[Mm Ss]` for at least a minute, else `[Ss]`.
pub open spec fn timer_text(secs: nat) -> Seq<char> {
    let m = secs / 60;
    let s = secs % 60;
    if m > 0 {
        "["@ + decimal(m) + "m "@ + decimal(s) + "s]"@
    } else {
        "["@ + decimal(s) + "s]"@
    }
}

/// The elapsed time for the timer indicator.
pub fn format_timer(secs: u64) -> (r: String)
    ensures
        r@ == timer_text(secs as nat),
{
    let m = secs / 60;
    let s = secs % 60;
    let mut out = owned("[");
    proof {
        reveal_strlit("[");
    }
    if m > 0 {
        let a = fmt_u64(m);
        out.append(a.as_str());
        out.append("m ");
    }
    let b = fmt_u64(s);
    out.append(b.as_str());
    out.append("s]");
    out
}

/// What follows the message: the timer, or `dot_phase / 8` dots (at most
/// three).
pub open spec fn suffix_text(dot_phase: u8, timer_secs: Option<u64>) -> Seq<char> {
    match timer_secs {
        Some(t) => " "@ + painted(crate::styles::spec_dim(), timer_text(t as nat)),
        None => fill('.', if dot_phase / 8 <= 3 { (dot_phase / 8) as nat } else { 3 }),
    }
}

/// One animation frame: clear the row, the frame glyph, the message, the
/// indicator.
pub open spec fn frame_text(idx: usize, dot_phase: u8, msg: Seq<char>, timer_secs: Option<u64>, s: &Settings) -> Seq<char> {
    "\r\x1b[2K"@ + painted(s.colors.accent, frame_glyph_spec(idx as nat)) + "  "@ + painted(
        crate::styles::spec_white(),
        msg,
    ) + suffix_text(dot_phase, timer_secs)
}

/// The text of animation frame `idx` (`timer_secs` is the elapsed time
/// when the timer indicator is on).
pub fn frame_line(idx: usize, dot_phase: u8, msg: &str, timer_secs: Option<u64>, s: &Settings) -> (r: String)
    ensures
        r@ == frame_text(idx, dot_phase, msg@, timer_secs, s),
{
    let mut out = owned("\r\x1b[2K");
    let g = paint(s.colors.accent, frame_glyph(idx));
    out.append(g.as_str());
    out.append("  ");
    let m = paint(white(), msg);
    out.append(m.as_str());
    match timer_secs {
        Some(t) => {
            out.append(" ");
            let f = format_timer(t);
            let d = paint(dim(), f.as_str());
            out.append(d.as_str());
        },
        None => {
            let n: u8 = dot_phase / 8;
            let k: usize = if n <= 3 { n as usize } else { 3 };
            let dots = fill_string('.', k);
            out.append(dots.as_str());
        },
    }
    out
}

/// The message of the final line: `msg`, or the running message when
/// `msg` is empty.
pub open spec fn final_msg(msg: Seq<char>, running: Seq<char>) -> Seq<char> {
    if msg.len() == 0 {
        running
    } else {
        msg
    }
}

/// The glyph for how the spinner ended.
pub open spec fn status_glyph(st: Status, s: &Settings) -> Seq<char> {
    match st {
        Status::Submit => painted(s.colors.success, STEP_SUBMIT@),
        Status::Cancel => painted(s.colors.cancel, STEP_CANCEL@),
        Status::Error => painted(s.colors.error, STEP_ERROR@),
    }
}

/// The final line: clear the row, the status glyph, the message, a
/// newline.
pub fn final_line(st: Status, msg: &str, running: &str, s: &Settings) -> (r: String)
    ensures
        r@ == "\r\x1b[2K"@ + status_glyph(st, s) + "  "@ + painted(
            crate::styles::spec_white(),
            final_msg(msg@, running@),
        ) + "\n"@,
{
    let text: &str = if msg.is_empty() { running } else { msg };
    let glyph = match st {
        Status::Submit => paint(s.colors.success, STEP_SUBMIT),
        Status::Cancel => paint(s.colors.cancel, STEP_CANCEL),
        Status::Error => paint(s.colors.error, STEP_ERROR),
    };
    let mut out = owned("\r\x1b[2K");
    out.append(glyph.as_str());
    out.append("  ");
    let m = paint(white(), text);
    out.append(m.as_str());
    out.append("\n");
    out
}

// ── lifecycle ────────────────────────────────────────────────────────────────

/// Where a spinner is in its life.
#[derive(Clone, Copy, Debug, PartialEq, Eq, Structural)]
pub struct SpinState {
    /// It has been started once.
    pub started: bool,
    /// Its animation runs.
    pub running: bool,
    /// It ended by a cancel.
    pub cancelled: bool,
}

/// What happens to a spinner.
#[derive(Clone, Copy, Debug, PartialEq, Eq, Structural)]
pub enum SpinEvent {
    Start,
    Stop,
    Cancel,
    Error,
    Clear,
    Drop,
}

/// What the spinner's owner does in answer.
#[derive(Clone, Copy, Debug, PartialEq, Eq, Structural)]
pub enum SpinAction {
    /// Start the animation.
    Launch,
    /// Nothing.
    Ignore,
    /// Stop the animation and print the final line with this status.
    Finish(Status),
    /// Stop the animation and erase its line.
    Erase,
}

/// A spinner that has not started.
pub open spec fn spin_new() -> SpinState {
    SpinState { started: false, running: false, cancelled: false }
}

/// The next state and the action: a start launches the animation once
/// (a second start is ignored); stop, cancel and error end it with their
/// final line (a cancel is remembered); clear erases it; dropping a
/// running spinner erases it and dropping another does nothing.
pub open spec fn spin_next(st: SpinState, ev: SpinEvent) -> (SpinState, SpinAction) {
    match ev {
        SpinEvent::Start => if st.started {
            (st, SpinAction::Ignore)
        } else {
            (SpinState { started: true, running: true, ..st }, SpinAction::Launch)
        },
        SpinEvent::Stop => (SpinState { running: false, ..st }, SpinAction::Finish(Status::Submit)),
        SpinEvent::Cancel => (
            SpinState { running: false, cancelled: true, ..st },
            SpinAction::Finish(Status::Cancel),
        ),
        SpinEvent::Error => (SpinState { running: false, ..st }, SpinAction::Finish(Status::Error)),
        SpinEvent::Clear => (SpinState { running: false, ..st }, SpinAction::Erase),
        SpinEvent::Drop => if st.running {
            (SpinState { running: false, ..st }, SpinAction::Erase)
        } else {
            (st, SpinAction::Ignore)
        },
    }
}

/// A spinner that has not started yet.
pub fn spin_start_state() -> (r: SpinState)
    ensures
        r == spin_new(),
{
    SpinState { started: false, running: false, cancelled: false }
}

/// Decide the next state and action (see [`spin_next`]).
pub fn spin_step(st: SpinState, ev: SpinEvent) -> (r: (SpinState, SpinAction))
    ensures
        r == spin_next(st, ev),
{
    match ev {
        SpinEvent::Start => if st.started {
            (st, SpinAction::Ignore)
        } else {
            (SpinState { started: true, running: true, ..st }, SpinAction::Launch)
        },
        SpinEvent::Stop => (SpinState { running: false, ..st }, SpinAction::Finish(Status::Submit)),
        SpinEvent::Cancel => (
            SpinState { running: false, cancelled: true, ..st },
            SpinAction::Finish(Status::Cancel),
        ),
        SpinEvent::Error => (SpinState { running: false, ..st }, SpinAction::Finish(Status::Error)),
        SpinEvent::Clear => (SpinState { running: false, ..st }, SpinAction::Erase),
        SpinEvent::Drop => if st.running {
            (SpinState { running: false, ..st }, SpinAction::Erase)
        } else {
            (st, SpinAction::Ignore)
        },
    }
}

/// A spinner starts at most once, every ending stops its animation, and
/// a cancel is never forgotten.
pub proof fn law_spinner_lifecycle(st: SpinState, ev: SpinEvent)
    ensures
        st.started ==> spin_next(st, SpinEvent::Start) == (st, SpinAction::Ignore),
        ev != SpinEvent::Start ==> !spin_next(st, ev).0.running,
        st.cancelled ==> spin_next(st, ev).0.cancelled,
        spin_next(st, ev).0.running ==> spin_next(st, ev).0.started || st.running,
{
}

} // verus!

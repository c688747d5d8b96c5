//! Progress bar: a bar of `size` cells filled in proportion to
//! `value / max`, drawn into a spinner's message line.
//!
//! [`Progress`] holds the bar's state; each update returns the line for
//! the spinner to show.

use vstd::prelude::*;
use crate::strutil::{owned, repeat, repeat_string};
use crate::styles::{dim, paint, painted};
use super::settings::Settings;

verus! {

broadcast use vstd::string::group_string_axioms;

/// The character the bar is drawn with.
#[derive(Clone, Copy, Debug, PartialEq, Eq, Structural)]
pub enum Style {
    Light,
    Heavy,
    Block,
}

pub open spec fn style_ch(s: Style) -> Seq<char> {
    match s {
        Style::Light => "─"@,
        Style::Heavy => "━"@,
        Style::Block => "█"@,
    }
}

impl Style {
    /// `─`, `━` or `█`.
    pub fn ch(self) -> (r: &'static str)
        ensures
            r@ == style_ch(self),
    {
        match self {
            Style::Light => "─",
            Style::Heavy => "━",
            Style::Block => "█",
        }
    }
}

/// A progress bar's state.
pub struct Progress {
    style: Style,
    size: usize,
    max: u64,
    value: u64,
    msg: String,
}

/// A heavy bar of 40 cells counting to 100.
pub fn progress() -> (r: Progress)
    ensures
        r.wf(),
        r.style_view() == Style::Heavy,
        r.size_view() == 40,
        r.max_view() == 100,
        r.value_view() == 0,
        r.msg_view() == Seq::<char>::empty(),
{
    Progress { style: Style::Heavy, size: 40, max: 100, value: 0, msg: String::new() }
}

/// The number of filled cells.
pub open spec fn filled(value: int, size: int, max: int) -> int {
    (value * size) / max
}

/// The bar line: the filled cells in the accent colour, the rest dimmed,
/// then the message.
pub open spec fn bar_line(style: Style, size: int, max: int, value: int, msg: Seq<char>, s: &Settings) -> Seq<char> {
    let f = filled(value, size, max);
    painted(s.colors.accent, repeat(style_ch(style), f as nat)) + painted(
        crate::styles::spec_dim(),
        repeat(style_ch(style), (size - f) as nat),
    ) + " "@ + msg
}

/// The filled part of the bar never exceeds the bar, and a full value
/// fills it exactly.
pub proof fn law_filled_within_bar(value: int, size: int, max: int)
    requires
        0 <= value <= max,
        1 <= max,
        0 <= size,
    ensures
        0 <= filled(value, size, max) <= size,
        filled(max, size, max) == size,
{
    assert(0 <= value * size <= max * size) by (nonlinear_arith)
        requires
            0 <= value <= max,
            0 <= size,
    ;
    assert((value * size) / max <= (max * size) / max) by (nonlinear_arith)
        requires
            0 <= value * size <= max * size,
            1 <= max,
    ;
    assert((max * size) / max == size) by (nonlinear_arith)
        requires
            1 <= max,
    ;
    assert(0 <= (value * size) / max) by (nonlinear_arith)
        requires
            0 <= value * size,
            1 <= max,
    ;
}

impl Progress {
    pub closed spec fn style_view(&self) -> Style {
        self.style
    }

    pub closed spec fn size_view(&self) -> usize {
        self.size
    }

    pub closed spec fn max_view(&self) -> u64 {
        self.max
    }

    /// The current value, at most `max`.
    pub closed spec fn value_view(&self) -> u64 {
        self.value
    }

    /// The message shown after the bar.
    pub closed spec fn msg_view(&self) -> Seq<char> {
        self.msg@
    }

    /// At least one cell, a positive maximum, and the value within it.
    pub open spec fn wf(&self) -> bool {
        &&& self.size_view() >= 1
        &&& self.max_view() >= 1
        &&& self.value_view() <= self.max_view()
    }

    /// Drawing does not overflow: `max * size` fits in `usize`.
    pub open spec fn drawable(&self) -> bool {
        self.max_view() * self.size_view() <= usize::MAX
    }

    pub fn style(self, s: Style) -> (r: Progress)
        ensures
            r.style_view() == s,
            r.size_view() == self.size_view(),
            r.max_view() == self.max_view(),
            r.value_view() == self.value_view(),
            r.msg_view() == self.msg_view(),
    {
        Progress { style: s, ..self }
    }

    /// Number of cells (at least 1).
    pub fn size(self, n: usize) -> (r: Progress)
        ensures
            r.size_view() == if n >= 1 { n } else { 1 },
            r.style_view() == self.style_view(),
            r.max_view() == self.max_view(),
            r.value_view() == self.value_view(),
            r.msg_view() == self.msg_view(),
    {
        Progress { size: if n >= 1 { n } else { 1 }, ..self }
    }

    /// The value that fills the bar (at least 1); the value is capped at
    /// it.
    pub fn max(self, n: u64) -> (r: Progress)
        ensures
            r.max_view() == if n >= 1 { n } else { 1 },
            r.value_view() == if self.value_view() <= r.max_view() {
                self.value_view()
            } else {
                r.max_view()
            },
            r.style_view() == self.style_view(),
            r.size_view() == self.size_view(),
            r.msg_view() == self.msg_view(),
    {
        let m = if n >= 1 { n } else { 1 };
        let v = if self.value <= m { self.value } else { m };
        Progress { max: m, value: v, ..self }
    }

    /// Whether the bar can be drawn without overflow (see [`Progress::drawable`]).
    pub fn can_draw(&self) -> (r: bool)
        ensures
            r == self.drawable(),
    {
        let m = self.max as u128;
        let z = self.size as u128;
        assert(m * z <= u64::MAX as int * u64::MAX as int) by (nonlinear_arith)
            requires
                m <= u64::MAX,
                z <= u64::MAX,
        ;
        m * z <= usize::MAX as u128
    }

    /// The bar for `value` with `msg` after it.
    pub fn render_with(&self, msg: &str, value: u64, s: &Settings) -> (r: String)
        requires
            self.wf(),
            self.drawable(),
            value <= self.max_view(),
        ensures
            r@ == bar_line(
                self.style_view(),
                self.size_view() as int,
                self.max_view() as int,
                value as int,
                msg@,
                s,
            ),
    {
        proof {
            assert(self.max <= self.max * self.size) by (nonlinear_arith)
                requires
                    self.size >= 1,
                    self.max >= 1,
            ;
            assert(value * self.size <= self.max * self.size) by (nonlinear_arith)
                requires
                    value <= self.max,
            ;
            assert((value * self.size) / (self.max as int) <= self.size) by (nonlinear_arith)
                requires
                    value <= self.max,
                    self.max >= 1,
            ;
        }
        let prod: usize = (value as usize) * self.size;
        let f: usize = prod / (self.max as usize);
        let ch = self.style.ch();
        let on = repeat_string(ch, f);
        let off = repeat_string(ch, self.size - f);
        let mut out = paint(s.colors.accent, on.as_str());
        let d = paint(dim(), off.as_str());
        out.append(d.as_str());
        out.append(" ");
        out.append(msg);
        out
    }

    /// Start with `msg`: the line to show.
    pub fn start(&mut self, msg: &str, s: &Settings) -> (r: String)
        requires
            old(self).wf(),
            old(self).drawable(),
        ensures
            final(self).msg_view() == msg@,
            final(self).value_view() == old(self).value_view(),
            final(self).style_view() == old(self).style_view(),
            final(self).size_view() == old(self).size_view(),
            final(self).max_view() == old(self).max_view(),
            r@ == bar_line(
                old(self).style_view(),
                old(self).size_view() as int,
                old(self).max_view() as int,
                old(self).value_view() as int,
                msg@,
                s,
            ),
    {
        self.msg = owned(msg);
        self.render_with(msg, self.value, s)
    }

    /// Move the value forward by `step` (stopping at `max`), take the new
    /// message if one is given: the line to show.
    pub fn advance(&mut self, step: u64, msg: Option<String>, s: &Settings) -> (r: String)
        requires
            old(self).wf(),
            old(self).drawable(),
        ensures
            final(self).value_view() == if old(self).value_view() + step <= old(self).max_view() {
                old(self).value_view() + step
            } else {
                old(self).max_view() as int
            },
            final(self).msg_view() == match msg {
                Some(m) => m@,
                None => old(self).msg_view(),
            },
            final(self).style_view() == old(self).style_view(),
            final(self).size_view() == old(self).size_view(),
            final(self).max_view() == old(self).max_view(),
            r@ == bar_line(
                final(self).style_view(),
                final(self).size_view() as int,
                final(self).max_view() as int,
                final(self).value_view() as int,
                final(self).msg_view(),
                s,
            ),
    {
        let room = self.max - self.value;
        self.value = if step <= room { self.value + step } else { self.max };
        match msg {
            Some(m) => {
                self.msg = m;
            },
            None => {},
        }
        let m = self.msg.clone();
        self.render_with(m.as_str(), self.value, s)
    }

    /// Replace the message: the line to show.
    pub fn message(&mut self, msg: &str, s: &Settings) -> (r: String)
        requires
            old(self).wf(),
            old(self).drawable(),
        ensures
            final(self).msg_view() == msg@,
            final(self).value_view() == old(self).value_view(),
            final(self).style_view() == old(self).style_view(),
            final(self).size_view() == old(self).size_view(),
            final(self).max_view() == old(self).max_view(),
            r@ == bar_line(
                old(self).style_view(),
                old(self).size_view() as int,
                old(self).max_view() as int,
                old(self).value_view() as int,
                msg@,
                s,
            ),
    {
        self.advance(0, Some(owned(msg)), s)
    }
}

} // verus!

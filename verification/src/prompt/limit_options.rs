//! Viewport helper: slides a window of at most `max` rows over a list so the
//! active cursor stays visible, and reports how many rows are hidden above
//! and below it.

use vstd::prelude::*;

verus! {

/// The visible window `[start, end)` and the hidden row counts.
#[derive(Clone, Copy, PartialEq, Eq, Debug)]
pub struct Viewport {
    pub start: usize,
    pub end: usize,
    pub above: usize,
    pub below: usize,
}

/// First visible row for a list of `total` rows, cursor `cursor` and window
/// size `max`: the cursor is kept in the middle of the window, clamped to the
/// ends of the list.
pub open spec fn window_start(total: nat, cursor: nat, max: nat) -> nat {
    if total <= max {
        0
    } else if cursor < max / 2 {
        0
    } else if cursor + (max - max / 2) > total {
        (total - max) as nat
    } else {
        (cursor - max / 2) as nat
    }
}

/// The window that `limit_options` computes.
pub open spec fn viewport_of(total: nat, cursor: nat, max: nat) -> Viewport {
    let start = window_start(total, cursor, max);
    let end = if start + max <= total { start + max } else { total };
    if total <= max {
        Viewport { start: 0, end: total as usize, above: 0, below: 0 }
    } else {
        Viewport {
            start: start as usize,
            end: end as usize,
            above: start as usize,
            below: (total - end) as usize,
        }
    }
}

/// Slide a window of `max` rows over `total` rows so that `cursor` stays
/// visible.
pub fn limit_options(total: usize, cursor: usize, max: usize) -> (r: Viewport)
    requires
        cursor + (max - max / 2) <= usize::MAX,
    ensures
        r == viewport_of(total as nat, cursor as nat, max as nat),
        r.start <= r.end <= total,
        r.above == r.start,
        r.above + (r.end - r.start) + r.below == total,
{
    if total <= max {
        return Viewport { start: 0, end: total, above: 0, below: 0 };
    }
    let half = max / 2;
    let start = if cursor < half {
        0
    } else if cursor + (max - half) > total {
        total - max
    } else {
        cursor - half
    };
    let end = if start + max <= total { start + max } else { total };
    Viewport { start, end, above: start, below: total - end }
}

/// The window never holds more than `max` rows, holds all of them when the
/// list fits, and always shows the cursor row when there is one.
pub proof fn law_viewport_shows_cursor(total: nat, cursor: nat, max: nat)
    requires
        max >= 1,
        cursor < total,
        total <= usize::MAX,
    ensures
        ({
            let v = viewport_of(total, cursor, max);
            &&& v.start <= cursor < v.end
            &&& v.end - v.start == if total <= max { total } else { max }
        }),
{
}

} // verus!

//! A task with a running log: the lines are shown while the task runs and
//! kept (up to a limit, the oldest dropped first). On success the shown
//! rows are cleared and a single success row takes their place; under an
//! error the kept lines are shown again.
//!
//! Each method returns the rows to print.

use vstd::prelude::*;
use crate::strutil::{owned, split_on, split_str};
use crate::styles::{dim, err, ok, paint, painted, white};
use super::theme::BAR;

verus! {

broadcast use vstd::string::group_string_axioms;

pub const STEP_OK: &'static str = "◇";

pub const STEP_GREEN: &'static str = "◆";

pub const STEP_ERR: &'static str = "■";

/// A task with a running log.
pub struct TaskLog {
    title: String,
    limit: usize,
    lines: Vec<String>,
    shown: usize,
}

/// A task log titled `title`, keeping the last 10 lines.
pub fn task_log(title: &str) -> (r: TaskLog)
    ensures
        r.title_view() == title@,
        r.limit_view() == 10,
        r.lines_view() == Seq::<Seq<char>>::empty(),
        r.shown_view() == 0,
{
    TaskLog { title: owned(title), limit: 10, lines: Vec::new(), shown: 0 }
}

/// The count of shown rows after `n` more (held at `usize::MAX`).
pub open spec fn rows_after(shown: usize, n: nat) -> usize {
    if shown + n > usize::MAX {
        usize::MAX
    } else {
        (shown + n) as usize
    }
}

/// The kept lines after adding `new`: the last `limit` of all of them.
pub open spec fn kept(old_lines: Seq<Seq<char>>, new: Seq<Seq<char>>, limit: nat) -> Seq<Seq<char>> {
    let all = old_lines + new;
    if all.len() > limit {
        all.subrange(all.len() - limit, all.len() as int)
    } else {
        all
    }
}

/// The log keeps at most `limit` lines, and they are the newest ones.
pub proof fn law_log_keeps_newest(old_lines: Seq<Seq<char>>, new: Seq<Seq<char>>, limit: nat)
    ensures
        kept(old_lines, new, limit).len() <= limit || kept(old_lines, new, limit) == old_lines + new,
        (old_lines + new).len() <= limit ==> kept(old_lines, new, limit) == old_lines + new,
        ({
            let all = old_lines + new;
            let k = kept(old_lines, new, limit);
            k.len() <= limit && forall|i: int|
                0 <= i < k.len() ==> #[trigger] k[i] == all[all.len() - k.len() + i]
        }) || (old_lines + new).len() <= limit,
{
}

/// A dimmed log row.
pub open spec fn log_row(l: Seq<char>) -> Seq<char> {
    painted(crate::styles::spec_dim(), BAR@) + "  "@ + painted(crate::styles::spec_dim(), l)
}

impl TaskLog {
    pub closed spec fn title_view(&self) -> Seq<char> {
        self.title@
    }

    pub closed spec fn limit_view(&self) -> usize {
        self.limit
    }

    /// How many log rows have been shown since the header.
    pub closed spec fn shown_view(&self) -> usize {
        self.shown
    }

    /// The kept log lines, oldest first.
    pub closed spec fn lines_view(&self) -> Seq<Seq<char>> {
        self.lines@.map_values(|x: String| x@)
    }

    /// Keep at most `n` lines (at least 1).
    pub fn limit(self, n: usize) -> (r: TaskLog)
        ensures
            r.limit_view() == if n >= 1 { n } else { 1 },
            r.title_view() == self.title_view(),
            r.lines_view() == self.lines_view(),
            r.shown_view() == self.shown_view(),
    {
        TaskLog { limit: if n >= 1 { n } else { 1 }, ..self }
    }

    /// The header rows: a connector, the title after a green `◆`, a
    /// connector.
    pub fn render_intro(&self) -> (r: Vec<String>)
        ensures
            r@.map_values(|x: String| x@) == seq![
                painted(crate::styles::spec_dim(), BAR@),
                painted(crate::styles::spec_ok(), STEP_GREEN@) + "  "@ + painted(
                    crate::styles::spec_white(),
                    self.title_view(),
                ),
                painted(crate::styles::spec_dim(), BAR@),
            ],
    {
        let mut out: Vec<String> = Vec::new();
        out.push(paint(dim(), BAR));
        let mut t = paint(ok(), STEP_GREEN);
        t.append("  ");
        let w = paint(white(), self.title.as_str());
        t.append(w.as_str());
        out.push(t);
        out.push(paint(dim(), BAR));
        proof {
            assert(out@.map_values(|x: String| x@) =~= seq![
                painted(crate::styles::spec_dim(), BAR@),
                painted(crate::styles::spec_ok(), STEP_GREEN@) + "  "@ + painted(
                    crate::styles::spec_white(),
                    self.title_view(),
                ),
                painted(crate::styles::spec_dim(), BAR@),
            ]);
        }
        out
    }

    /// Log `msg`: its lines are kept (dropping the oldest beyond the
    /// limit) and it is shown dimmed, one row per line of it.
    pub fn message(&mut self, msg: &str) -> (r: String)
        ensures
            final(self).title_view() == old(self).title_view(),
            final(self).limit_view() == old(self).limit_view(),
            final(self).lines_view() == kept(
                old(self).lines_view(),
                split_on(msg@, seq!['\n']),
                old(self).limit_view() as nat,
            ),
            final(self).shown_view() == rows_after(
                old(self).shown_view(),
                split_on(msg@, seq!['\n']).len(),
            ),
            r@ == log_row(msg@),
    {
        let mut nl = String::new();
        crate::strutil::push_char(&mut nl, '\n');
        proof {
            assert(nl@ =~= seq!['\n']);
        }
        let parts = split_str(msg, nl.as_str());
        let ghost all = self.lines_view() + parts@.map_values(|x: String| x@);
        let mut i: usize = 0;
        let ghost start = self.lines_view();
        let ghost lim = self.limit;
        let ghost ttl = self.title@;
        let ghost sh = self.shown;
        while i < parts.len()
            invariant
                self.limit == lim,
                self.title@ == ttl,
                self.shown == sh,
                0 <= i <= parts@.len(),
                all == start + parts@.map_values(|x: String| x@),
                self.lines_view() == all.take(start.len() + i),
            decreases parts@.len() - i,
        {
            let p = parts[i].clone();
            let ghost prev = self.lines@;
            let ghost pv = p@;
            self.lines.push(p);
            proof {
                assert(self.lines_view() =~= prev.map_values(|x: String| x@).push(pv));
                assert(all.take(start.len() + i + 1) =~= all.take(start.len() + i).push(pv));
            }
            i += 1;
        }
        proof {
            assert(all.take((start.len() + parts@.len()) as int) =~= all);
        }
        let ghost dropped: int = 0;
        while self.lines.len() > self.limit
            invariant
                self.limit == lim,
                self.title@ == ttl,
                self.shown == sh,
                0 <= dropped <= all.len(),
                dropped == 0 || all.len() - dropped >= lim,
                self.lines_view() == all.subrange(dropped, all.len() as int),
            decreases self.lines@.len(),
        {
            let ghost before = self.lines@;
            let ghost old_view = self.lines_view();
            assert(old_view.len() == before.len());
            self.lines.remove(0);
            proof {
                assert(self.lines@ =~= before.subrange(1, before.len() as int));
                assert(before.len() == all.len() - dropped);
                assert(self.lines_view() =~= old_view.subrange(1, old_view.len() as int));
                assert(self.lines_view() =~= all.subrange(dropped + 1, all.len() as int));
                dropped = dropped + 1;
            }
        }
        proof {
            if all.len() > self.limit {
                assert(dropped == all.len() - self.limit);
            } else {
                assert(dropped == 0);
                assert(all.subrange(0, all.len() as int) =~= all);
            }
        }
        self.shown = self.shown.saturating_add(parts.len());
        let mut row = paint(dim(), BAR);
        row.append("  ");
        let m = paint(dim(), msg);
        row.append(m.as_str());
        row
    }

    /// Finish the task: the log rows shown since the header are to be
    /// cleared (`r.0` rows above the cursor), and the success row, a green
    /// `◇` and `msg`, printed in their place.
    pub fn success(&self, msg: &str) -> (r: (usize, String))
        ensures
            r.0 == self.shown_view(),
            r.1@ == painted(crate::styles::spec_ok(), STEP_OK@) + "  "@ + painted(
                crate::styles::spec_white(),
                msg@,
            ),
    {
        let mut row = paint(ok(), STEP_OK);
        row.append("  ");
        let m = paint(white(), msg);
        row.append(m.as_str());
        (self.shown, row)
    }

    /// The error rows: a red `■` and `msg`, then every kept log line.
    pub fn error(&self, msg: &str) -> (r: Vec<String>)
        ensures
            r@.map_values(|x: String| x@) == seq![
                painted(crate::styles::spec_err(), STEP_ERR@) + "  "@ + painted(
                    crate::styles::spec_err(),
                    msg@,
                ),
            ] + self.lines_view().map_values(|l: Seq<char>| log_row(l)),
    {
        let mut out: Vec<String> = Vec::new();
        let mut first = paint(err(), STEP_ERR);
        first.append("  ");
        let m = paint(err(), msg);
        first.append(m.as_str());
        out.push(first);
        let ghost head = out@.map_values(|x: String| x@);
        let ghost lv = self.lines_view();
        let mut i: usize = 0;
        while i < self.lines.len()
            invariant
                lv == self.lines_view(),
                0 <= i <= lv.len(),
                out@.map_values(|x: String| x@) == head + lv.take(i as int).map_values(
                    |l: Seq<char>| log_row(l),
                ),
            decreases lv.len() - i,
        {
            let mut row = paint(dim(), BAR);
            row.append("  ");
            let l = paint(dim(), self.lines[i].as_str());
            row.append(l.as_str());
            let ghost prev = out@;
            out.push(row);
            proof {
                assert(lv[i as int] == self.lines@[i as int]@);
                assert(out@.map_values(|x: String| x@) =~= prev.map_values(|x: String| x@).push(row@));
                assert(lv.take(i + 1) =~= lv.take(i as int).push(lv[i as int]));
            }
            i += 1;
        }
        proof {
            assert(lv.take(lv.len() as int) =~= lv);
        }
        out
    }
}

} // verus!

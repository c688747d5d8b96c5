//! Date picker: three segments (year, month, day), ←/→ to move between
//! them, ↑/↓ to adjust.

use vstd::prelude::*;
use crate::strutil::{
    fmt_zero_padded, owned, parse_i32, parse_u32, parsed_i32, parsed_u32, split_on,
    split_str, zero_padded,
};
use crate::styles::{dim, paint, painted};
use super::base::{Frame, Key, Prompt, RenderCtx, Step, frame::rows};
use super::settings::Settings;
use super::text::{answered_rows, crlf};
use super::theme::{
    frame_bot, hint, label, spec_answered, spec_frame_bot, spec_hint, spec_label_state, BAR,
};

verus! {

broadcast use vstd::string::group_string_axioms;

/// Proleptic Gregorian calendar date.
#[derive(Debug, Clone, Copy, PartialEq, Eq, Structural)]
pub struct Date {
    /// Year, e.g. `2026`.
    pub year: i32,
    /// Month, `1..=12`.
    pub month: u32,
    /// Day of month, `1..=31` (clamped to the month's actual length).
    pub day: u32,
}

/// Gregorian leap year: divisible by 4 and not by 100, or by 400.
pub open spec fn leap(y: int) -> bool {
    (y % 4 == 0 && y % 100 != 0) || y % 400 == 0
}

/// Days in year `y`.
pub open spec fn year_len(y: int) -> int {
    if leap(y) {
        366
    } else {
        365
    }
}

/// Days in month `m` of year `y` (0 for a month outside `1..=12`).
pub open spec fn month_len(y: int, m: int) -> int {
    if m == 1 || m == 3 || m == 5 || m == 7 || m == 8 || m == 10 || m == 12 {
        31
    } else if m == 4 || m == 6 || m == 9 || m == 11 {
        30
    } else if m == 2 {
        if leap(y) {
            29
        } else {
            28
        }
    } else {
        0
    }
}

/// Days from 1970-01-01 to the first of January of year `y >= 1970`.
pub open spec fn days_before_year(y: int) -> int
    decreases y - 1970,
{
    if y <= 1970 {
        0
    } else {
        days_before_year(y - 1) + year_len(y - 1)
    }
}

/// Days from the first of January to the first of month `m` of year `y`.
pub open spec fn days_before_month(y: int, m: int) -> int
    decreases m,
{
    if m <= 1 {
        0
    } else {
        days_before_month(y, m - 1) + month_len(y, m - 1)
    }
}

/// Days from 1970-01-01 to `d`.
pub open spec fn days_since_epoch(d: Date) -> int {
    days_before_year(d.year as int) + days_before_month(d.year as int, d.month as int) + d.day - 1
}

/// A real calendar date: a month `1..=12` and a day within it.
pub open spec fn valid_date(d: Date) -> bool {
    1 <= d.month <= 12 && 1 <= d.day <= month_len(d.year as int, d.month as int)
}

/// The number of days from 1970-01-01 that [`from_unix_days`] turns into
/// a date with a year that fits in `i32`.
pub const MAX_UNIX_DAYS: i64 = 783830812105;

/// Days in the date's month, with 30 for a month outside `1..=12`.
pub open spec fn spec_days_in_month(year: i32, month: u32) -> u32 {
    if 1 <= month <= 12 {
        month_len(year as int, month as int) as u32
    } else {
        30
    }
}

proof fn lemma_days_before_year_grows(y: int)
    requires
        y >= 1970,
    ensures
        days_before_year(y) >= 365 * (y - 1970),
    decreases y - 1970,
{
    if y > 1970 {
        lemma_days_before_year_grows(y - 1);
    }
}

proof fn lemma_months_fill_year(y: int)
    ensures
        days_before_month(y, 13) == year_len(y),
{
    reveal_with_fuel(days_before_month, 13);
}

proof fn lemma_days_before_month_grows(y: int, m: int)
    requires
        1 <= m <= 13,
    ensures
        forall|k: int| 1 <= k <= m ==> days_before_month(y, k) <= days_before_month(y, m),
    decreases m,
{
    if m > 1 {
        lemma_days_before_month_grows(y, m - 1);
    }
}

/// Whether `y` is a leap year.
pub fn is_leap(y: i32) -> (r: bool)
    ensures
        r == leap(y as int),
{
    (y % 4 == 0 && y % 100 != 0) || y % 400 == 0
}

fn month_len_exec(y: i32, m: u32) -> (r: i64)
    ensures
        r == month_len(y as int, m as int),
{
    if m == 1 || m == 3 || m == 5 || m == 7 || m == 8 || m == 10 || m == 12 {
        31
    } else if m == 4 || m == 6 || m == 9 || m == 11 {
        30
    } else if m == 2 {
        if is_leap(y) {
            29
        } else {
            28
        }
    } else {
        0
    }
}

/// The date `days` days after 1970-01-01.
pub fn from_unix_days(days: i64) -> (r: Date)
    requires
        0 <= days < MAX_UNIX_DAYS,
    ensures
        valid_date(r),
        r.year >= 1970,
        days_since_epoch(r) == days,
{
    let mut rest: i64 = days;
    let mut y: i32 = 1970;
    loop
        invariant
            0 <= rest <= days < MAX_UNIX_DAYS,
            1970 <= y < i32::MAX,
            days == days_before_year(y as int) + rest,
        ensures
            0 <= rest < year_len(y as int),
            1970 <= y < i32::MAX,
            days == days_before_year(y as int) + rest,
        decreases rest,
    {
        let in_year: i64 = if is_leap(y) { 366 } else { 365 };
        if rest < in_year {
            break;
        }
        proof {
            lemma_days_before_year_grows(y as int);
            lemma_days_before_year_grows(y + 1);
            assert(days_before_year(y + 1) == days_before_year(y as int) + in_year);
            assert(365 * (y + 1 - 1970) <= days);
        }
        rest = rest - in_year;
        y = y + 1;
    }
    let mut m: u32 = 1;
    proof {
        lemma_months_fill_year(y as int);
    }
    while rest >= month_len_exec(y, m)
        invariant
            1 <= m <= 12,
            0 <= rest,
            days_before_month(y as int, m as int) + rest < year_len(y as int),
            days == days_before_year(y as int) + days_before_month(y as int, m as int) + rest,
            days_before_month(y as int, 13) == year_len(y as int),
        decreases 12 - m,
    {
        proof {
            if m == 12 {
                assert(days_before_month(y as int, 13) == days_before_month(y as int, 12) + month_len(
                    y as int,
                    12,
                ));
                assert(false);
            }
        }
        rest = rest - month_len_exec(y, m);
        m = m + 1;
    }
    proof {
        assert(rest < month_len(y as int, m as int));
        assert(month_len(y as int, m as int) <= 31);
    }
    Date { year: y, month: m, day: (rest as u32) + 1 }
}

/// The date of the day that `secs` seconds after 1970-01-01T00:00:00 UTC
/// fall on; beyond the last date whose year fits in `i32`, that date.
pub fn from_unix_secs(secs: u64) -> (r: Date)
    ensures
        valid_date(r),
        secs / 86400 < MAX_UNIX_DAYS ==> days_since_epoch(r) == secs / 86400,
        secs / 86400 >= MAX_UNIX_DAYS ==> days_since_epoch(r) == MAX_UNIX_DAYS - 1,
{
    let d: u64 = secs / 86400;
    if d < (MAX_UNIX_DAYS as u64) {
        from_unix_days(d as i64)
    } else {
        from_unix_days(MAX_UNIX_DAYS - 1)
    }
}

/// Seconds since 1970-01-01T00:00:00 UTC by the system clock, from
/// `SystemTime::now().duration_since(UNIX_EPOCH)`; 0 for a clock set
/// before that instant. Nothing is stated of the value: it is the time.
#[verifier::external_body]
fn unix_secs_now() -> (r: u64) {
    std::time::SystemTime::now().duration_since(std::time::UNIX_EPOCH).map(|d| d.as_secs()).unwrap_or(0)
}

/// `yyyy-mm-dd` (each part zero-padded: year to 4, month and day to 2).
pub open spec fn iso_text(d: Date) -> Seq<char> {
    zero_padded(d.year as int, 4) + seq!['-'] + zero_padded(d.month as int, 2) + seq!['-']
        + zero_padded(d.day as int, 2)
}

impl Date {
    /// Today in UTC, by the system clock.
    pub fn today() -> (r: Date)
        ensures
            valid_date(r),
    {
        from_unix_secs(unix_secs_now())
    }

    /// `yyyy-mm-dd` string, e.g. `2026-06-30`.
    pub fn iso(&self) -> (r: String)
        ensures
            r@ == iso_text(*self),
    {
        let mut s = fmt_zero_padded(self.year as i64, 4);
        let mut dash = String::new();
        crate::strutil::push_char(&mut dash, '-');
        s.append(dash.as_str());
        let m = fmt_zero_padded(self.month as i64, 2);
        s.append(m.as_str());
        s.append(dash.as_str());
        let d = fmt_zero_padded(self.day as i64, 2);
        s.append(d.as_str());
        s
    }

    /// Days in this date's month (30 for a month outside `1..=12`).
    pub fn days_in_month(&self) -> (r: u32)
        ensures
            r == spec_days_in_month(self.year, self.month),
    {
        if self.month >= 1 && self.month <= 12 {
            month_len_exec(self.year, self.month) as u32
        } else {
            30
        }
    }

    /// Bring a date back into the calendar after an adjustment: month 0
    /// wraps to December of the year before, a month past 12 to January
    /// of the next year, and the day is clamped to the month's length (a
    /// day 0 becomes the month's last day).
    pub fn clamp(&mut self)
        requires
            clamp_fits(*old(self)),
        ensures
            *final(self) == clamped(*old(self)),
    {
        if self.month < 1 {
            self.month = 12;
            self.year = self.year - 1;
        }
        if self.month > 12 {
            self.month = 1;
            self.year = self.year + 1;
        }
        let max = self.days_in_month();
        if self.day < 1 {
            self.day = max;
        }
        if self.day > max {
            self.day = max;
        }
    }
}

/// Clamping always gives a real calendar date.
pub proof fn law_clamp_gives_valid_date(d: Date)
    requires
        clamp_fits(d),
    ensures
        valid_date(clamped(d)),
{
}

/// The year and month after wrapping an out-of-range month.
pub open spec fn wrapped_month(d: Date) -> (int, u32) {
    if d.month < 1 {
        (d.year - 1, 12)
    } else if d.month > 12 {
        (d.year + 1, 1)
    } else {
        (d.year as int, d.month)
    }
}

/// [`Date::clamp`] does not overflow the year.
pub open spec fn clamp_fits(d: Date) -> bool {
    i32::MIN <= wrapped_month(d).0 <= i32::MAX
}

/// What [`Date::clamp`] makes of `d`.
pub open spec fn clamped(d: Date) -> Date {
    let (y, m) = wrapped_month(d);
    let max = spec_days_in_month(y as i32, m);
    Date { year: y as i32, month: m, day: if d.day < 1 || d.day > max { max } else { d.day } }
}

#[derive(Clone, Copy, PartialEq, Eq, Structural)]
enum Seg {
    Y,
    M,
    D,
}

spec fn seg_index(s: Seg) -> nat {
    match s {
        Seg::Y => 0,
        Seg::M => 1,
        Seg::D => 2,
    }
}

/// `d` with segment `seg` (0 year, 1 month, 2 day) moved by `by`: the year
/// stays at least 1, the month within `1..=12`, the day at least 1.
pub open spec fn adjusted(d: Date, seg: nat, by: int) -> Date {
    if seg == 0 {
        Date { year: (if d.year + by < 1 { 1 } else { d.year + by }) as i32, ..d }
    } else if seg == 1 {
        let v = (d.month as i32) + by;
        Date { month: (if v < 1 { 1 } else if v > 12 { 12 } else { v }) as u32, ..d }
    } else {
        let v = (d.day as i32) + by;
        Date { day: (if v < 1 { 1 } else { v }) as u32, ..d }
    }
}

/// Moving segment `seg` by `by` does not overflow.
pub open spec fn adjust_fits(d: Date, seg: nat, by: int) -> bool {
    if seg == 0 {
        i32::MIN <= d.year + by <= i32::MAX
    } else if seg == 1 {
        i32::MIN <= (d.month as i32) + by <= i32::MAX
    } else {
        i32::MIN <= (d.day as i32) + by <= i32::MAX
    }
}

/// One ↑ (`by == 1`) or ↓ (`by == -1`) step on segment `seg`, then the
/// clamp, does not overflow.
pub open spec fn step_fits(d: Date, seg: nat, by: int) -> bool {
    adjust_fits(d, seg, by) && clamp_fits(adjusted(d, seg, by))
}

/// The date after one ↑ or ↓ step on segment `seg`.
pub open spec fn stepped(d: Date, seg: nat, by: int) -> Date {
    clamped(adjusted(d, seg, by))
}

/// `a` is an earlier day than `b`: by year, then month, then day.
pub open spec fn date_before(a: Date, b: Date) -> bool {
    a.year < b.year || (a.year == b.year && (a.month < b.month || (a.month == b.month && a.day
        < b.day)))
}

fn date_before_exec(a: &Date, b: &Date) -> (r: bool)
    ensures
        r == date_before(*a, *b),
{
    a.year < b.year || (a.year == b.year && (a.month < b.month || (a.month == b.month && a.day
        < b.day)))
}

/// `d` is on or after `min` and on or before `max`, where they are given.
pub open spec fn in_bounds(d: Date, min: Option<Date>, max: Option<Date>) -> bool {
    &&& (min matches Some(m) ==> !date_before(d, m))
    &&& (max matches Some(m) ==> !date_before(m, d))
}

/// "Earlier day" is a strict total order on dates: no date is before
/// itself, of two dates at most one is before the other, it is transitive,
/// and of two different dates one is before the other.
pub proof fn law_date_order(a: Date, b: Date, c: Date)
    ensures
        !date_before(a, a),
        date_before(a, b) ==> !date_before(b, a),
        date_before(a, b) && date_before(b, c) ==> date_before(a, c),
        a != b ==> date_before(a, b) || date_before(b, a),
{
}

/// Dates are ordered by year first, then month, then day: a later year,
/// or the same year and a later month, or the same month and a later day,
/// is a later date.
pub proof fn law_date_order_by_fields(a: Date, b: Date)
    ensures
        a.year < b.year ==> date_before(a, b),
        a.year == b.year && a.month < b.month ==> date_before(a, b),
        a.year == b.year && a.month == b.month && a.day < b.day ==> date_before(a, b),
{
}

/// A range of one day accepts that day and no other, and a date is
/// accepted by a range from itself or up to itself.
pub proof fn law_one_day_range(d: Date, m: Date)
    ensures
        in_bounds(d, Some(m), Some(m)) <==> d == m,
        in_bounds(d, Some(d), None),
        in_bounds(d, None, Some(d)),
{
}

proof fn lemma_months_grow(y: int, m: int, n: int)
    requires
        1 <= m < n,
    ensures
        days_before_month(y, m) + month_len(y, m) <= days_before_month(y, n),
    decreases n - m,
{
    if m + 1 < n {
        lemma_months_grow(y, m + 1, n);
    }
}

proof fn lemma_years_grow(y: int, z: int)
    requires
        1970 <= y < z,
    ensures
        days_before_year(y) + year_len(y) <= days_before_year(z),
    decreases z - y,
{
    if y + 1 < z {
        lemma_years_grow(y + 1, z);
    }
}

proof fn lemma_day_in_year(d: Date)
    requires
        valid_date(d),
    ensures
        0 <= days_before_month(d.year as int, d.month as int) + d.day - 1 < year_len(
            d.year as int,
        ),
{
    let y = d.year as int;
    let m = d.month as int;
    lemma_months_fill_year(y);
    lemma_months_grow(y, m, 13);
    lemma_months_nonneg(y, m);
}

proof fn lemma_months_nonneg(y: int, m: int)
    ensures
        days_before_month(y, m) >= 0,
    decreases m,
{
    if m > 1 {
        lemma_months_nonneg(y, m - 1);
    }
}

/// On real calendar dates from 1970 on, "earlier day" agrees with the
/// count of days since 1970-01-01: one date is before another exactly
/// when fewer days lie between the epoch and it.
pub proof fn law_date_order_counts_days(a: Date, b: Date)
    requires
        valid_date(a),
        valid_date(b),
        a.year >= 1970,
        b.year >= 1970,
    ensures
        date_before(a, b) <==> days_since_epoch(a) < days_since_epoch(b),
        a == b <==> days_since_epoch(a) == days_since_epoch(b),
{
    lemma_before_counts_days(a, b);
    lemma_before_counts_days(b, a);
}

proof fn lemma_before_counts_days(a: Date, b: Date)
    requires
        valid_date(a),
        valid_date(b),
        a.year >= 1970,
        b.year >= 1970,
    ensures
        date_before(a, b) ==> days_since_epoch(a) < days_since_epoch(b),
{
    lemma_day_in_year(a);
    lemma_day_in_year(b);
    let ya = a.year as int;
    let yb = b.year as int;
    if ya < yb {
        lemma_years_grow(ya, yb);
    } else if ya == yb && a.month < b.month {
        lemma_months_grow(ya, a.month as int, b.month as int);
    }
}

/// The message for a date outside the bounds.
pub open spec fn out_of_range_msg() -> Seq<char> {
    "Date out of range"@
}

/// The key help under the date.
pub open spec fn date_help() -> Seq<char> {
    "← → segment · ↑ ↓ adjust · Enter to confirm"@
}

/// One date segment: reversed video in the accent colour when active,
/// the input colour otherwise.
pub open spec fn seg_text(v: Seq<char>, active: bool, s: &Settings) -> Seq<char> {
    if active {
        painted(s.colors.accent, "\x1b[7m"@ + v + "\x1b[27m"@)
    } else {
        painted(s.colors.input, v)
    }
}

/// The date row: the three segments joined with dimmed dashes.
pub open spec fn date_row(d: Date, seg: nat, s: &Settings) -> Seq<char> {
    let dash = painted(crate::styles::spec_dim(), "-"@);
    painted(crate::styles::spec_dim(), BAR@) + "  "@ + seg_text(zero_padded(d.year as int, 4), seg == 0, s)
        + dash + seg_text(zero_padded(d.month as int, 2), seg == 1, s) + dash + seg_text(
        zero_padded(d.day as int, 2),
        seg == 2,
        s,
    )
}

/// What a fallback line gives: the shown date for an empty line; for a
/// line of three `-`-separated parts, the parts read as year, month and
/// day (each part that does not parse keeps the shown value); nothing
/// otherwise.
pub open spec fn parsed_line(line: Seq<char>, d: Date) -> Option<Date> {
    if line.len() == 0 {
        Some(d)
    } else {
        let parts = split_on(line, seq!['-']);
        if parts.len() != 3 {
            None
        } else {
            Some(
                Date {
                    year: match parsed_i32(parts[0]) {
                        Some(v) => v,
                        None => d.year,
                    },
                    month: match parsed_u32(parts[1]) {
                        Some(v) => v,
                        None => d.month,
                    },
                    day: match parsed_u32(parts[2]) {
                        Some(v) => v,
                        None => d.day,
                    },
                },
            )
        }
    }
}

/// Builder returned by [`date()`].
pub struct DatePrompt {
    label: String,
    value: Date,
    min: Option<Date>,
    max: Option<Date>,
    seg: Seg,
    settings: Settings,
}

/// Pick a date, starting from today.
pub fn date(label: &str) -> (r: DatePrompt)
    ensures
        r.label_view() == label@,
        valid_date(r.value()),
        r.min_view() == None::<Date>,
        r.max_view() == None::<Date>,
        r.seg() == 0,
        r.settings_view().is_default_flags(),
{
    DatePrompt {
        label: owned(label),
        value: Date::today(),
        min: None,
        max: None,
        seg: Seg::Y,
        settings: Settings::default(),
    }
}

fn adjust(d: &mut Date, seg: Seg, by: i32)
    requires
        by == 1 || by == -1,
        adjust_fits(*old(d), seg_index(seg), by as int),
    ensures
        *final(d) == adjusted(*old(d), seg_index(seg), by as int),
{
    match seg {
        Seg::Y => {
            let v = d.year + by;
            d.year = if v < 1 { 1 } else { v };
        },
        Seg::M => {
            let v = (d.month as i32) + by;
            d.month = (if v < 1 { 1 } else if v > 12 { 12 } else { v }) as u32;
        },
        Seg::D => {
            let v = (d.day as i32) + by;
            d.day = (if v < 1 { 1 } else { v }) as u32;
        },
    }
}

/// Whether one step by `by` on `seg` (and the clamp after it) stays
/// within `i32`.
fn step_ok(d: Date, seg: Seg, by: i32) -> (r: bool)
    requires
        by == 1 || by == -1,
    ensures
        r == step_fits(d, seg_index(seg), by as int),
{
    let fits = match seg {
        Seg::Y => d.year.checked_add(by).is_some(),
        Seg::M => (d.month as i32).checked_add(by).is_some(),
        Seg::D => (d.day as i32).checked_add(by).is_some(),
    };
    if !fits {
        return false;
    }
    let mut a = d;
    adjust(&mut a, seg, by);
    if a.month < 1 {
        a.year.checked_sub(1).is_some()
    } else if a.month > 12 {
        a.year.checked_add(1).is_some()
    } else {
        true
    }
}

fn seg_exec(v: &str, active: bool, s: &Settings) -> (r: String)
    ensures
        r@ == seg_text(v@, active, s),
{
    if active {
        let on = "\x1b[7m";
        let off = "\x1b[27m";
        let mut t = owned(on);
        t.append(v);
        t.append(off);
        paint(s.colors.accent, t.as_str())
    } else {
        paint(s.colors.input, v)
    }
}

impl DatePrompt {
    pub closed spec fn label_view(&self) -> Seq<char> {
        self.label@
    }

    /// The date shown.
    pub closed spec fn value(&self) -> Date {
        self.value
    }

    pub closed spec fn min_view(&self) -> Option<Date> {
        self.min
    }

    pub closed spec fn max_view(&self) -> Option<Date> {
        self.max
    }

    /// The active segment: 0 year, 1 month, 2 day.
    pub closed spec fn seg(&self) -> nat {
        seg_index(self.seg)
    }

    pub closed spec fn settings_view(&self) -> Settings {
        self.settings
    }

    /// Initial date shown (default: today).
    pub fn initial(self, d: Date) -> (r: DatePrompt)
        ensures
            r.value() == d,
            r.label_view() == self.label_view(),
            r.min_view() == self.min_view(),
            r.max_view() == self.max_view(),
            r.seg() == self.seg(),
            r.settings_view() == self.settings_view(),
    {
        DatePrompt { value: d, ..self }
    }

    /// Refuse dates earlier than `d`.
    pub fn min(self, d: Date) -> (r: DatePrompt)
        ensures
            r.min_view() == Some(d),
            r.value() == self.value(),
            r.label_view() == self.label_view(),
            r.max_view() == self.max_view(),
            r.seg() == self.seg(),
            r.settings_view() == self.settings_view(),
    {
        DatePrompt { min: Some(d), ..self }
    }

    /// Refuse dates later than `d`.
    pub fn max(self, d: Date) -> (r: DatePrompt)
        ensures
            r.max_view() == Some(d),
            r.value() == self.value(),
            r.label_view() == self.label_view(),
            r.min_view() == self.min_view(),
            r.seg() == self.seg(),
            r.settings_view() == self.settings_view(),
    {
        DatePrompt { max: Some(d), ..self }
    }

    /// Render and read key behaviour with `s` in place of the defaults.
    pub fn settings(self, s: Settings) -> (r: DatePrompt)
        ensures
            r.settings_view() == s,
            r.value() == self.value(),
            r.label_view() == self.label_view(),
            r.min_view() == self.min_view(),
            r.max_view() == self.max_view(),
            r.seg() == self.seg(),
    {
        DatePrompt { settings: s, ..self }
    }

    /// The shown date is within the bounds, compared as days.
    pub fn within_range(&self) -> (r: bool)
        ensures
            r == in_bounds(self.value(), self.min_view(), self.max_view()),
    {
        match &self.min {
            Some(m) => {
                if date_before_exec(&self.value, m) {
                    return false;
                }
            },
            None => {},
        }
        match &self.max {
            Some(m) => {
                if date_before_exec(m, &self.value) {
                    return false;
                }
            },
            None => {},
        }
        true
    }

    /// Whether the prompt can take `key`: an ↑ or ↓ step must stay within
    /// the range of `i32` years.
    pub fn key_ok(&self, key: Key) -> (r: bool)
        ensures
            r == self.handle_ok(key),
    {
        match key {
            Key::Up => step_ok(self.value, self.seg, 1),
            Key::Down => step_ok(self.value, self.seg, -1),
            _ => true,
        }
    }

    /// The question of the fallback: the label, the format and the
    /// default date.
    pub fn fallback_ask(&self) -> (r: String)
        ensures
            r@ == "  "@ + self.label_view() + " [yyyy-mm-dd, default "@ + iso_text(self.value()) + "]: "@,
    {
        let mut out = owned("  ");
        proof {
            reveal_strlit("  ");
        }
        out.append(self.label.as_str());
        out.append(" [yyyy-mm-dd, default ");
        let d = self.value.iso();
        out.append(d.as_str());
        out.append("]: ");
        out
    }

    /// The date a fallback line gives (see [`parsed_line`]).
    pub fn parse_line(&self, line: &str) -> (r: Option<Date>)
        ensures
            r == parsed_line(line@, self.value()),
    {
        if line.is_empty() {
            return Some(self.value);
        }
        let mut sep = String::new();
        crate::strutil::push_char(&mut sep, '-');
        let parts = split_str(line, sep.as_str());
        if parts.len() != 3 {
            return None;
        }
        proof {
            assert(parts@[0]@ == split_on(line@, seq!['-'])[0]);
            assert(parts@[1]@ == split_on(line@, seq!['-'])[1]);
            assert(parts@[2]@ == split_on(line@, seq!['-'])[2]);
        }
        let year = match parse_i32(parts[0].as_str()) {
            Some(v) => v,
            None => self.value.year,
        };
        let month = match parse_u32(parts[1].as_str()) {
            Some(v) => v,
            None => self.value.month,
        };
        let day = match parse_u32(parts[2].as_str()) {
            Some(v) => v,
            None => self.value.day,
        };
        Some(Date { year, month, day })
    }

    /// The rows of the live frame.
    pub open spec fn spec_render(&self) -> Seq<Seq<char>> {
        let s = self.settings_view();
        seq![
            spec_label_state(self.label_view(), false, &s),
            date_row(self.value(), self.seg(), &s),
            spec_hint(date_help(), &s),
            spec_frame_bot(None, &s),
        ]
    }
}

impl Prompt for DatePrompt {
    type Output = Date;

    open spec fn handle_ok(&self, key: Key) -> bool {
        &&& key == Key::Up ==> step_fits(self.value(), self.seg(), 1)
        &&& key == Key::Down ==> step_fits(self.value(), self.seg(), -1)
    }

    open spec fn render_ok(&self) -> bool {
        true
    }

    /// ←/→ move between the segments (wrapping), ↑/↓ move the active
    /// segment by one and clamp the date; Enter submits a date within the
    /// bounds and refuses one outside them; Escape and Ctrl-C cancel.
    fn handle(&mut self, key: Key) -> (r: Step<Date>)
        ensures
            final(self).label_view() == old(self).label_view(),
            final(self).min_view() == old(self).min_view(),
            final(self).max_view() == old(self).max_view(),
            final(self).settings_view() == old(self).settings_view(),
            ({
                let d = old(self).value();
                let g = old(self).seg();
                match key {
                    Key::Left => r is Continue && final(self).value() == d && final(self).seg() == (g
                        + 2) % 3,
                    Key::Right => r is Continue && final(self).value() == d && final(self).seg() == (g
                        + 1) % 3,
                    Key::Up => r is Continue && final(self).seg() == g && final(self).value()
                        == stepped(d, g, 1),
                    Key::Down => r is Continue && final(self).seg() == g && final(self).value()
                        == stepped(d, g, -1),
                    Key::Enter => final(self).value() == d && final(self).seg() == g && if in_bounds(
                        d,
                        old(self).min_view(),
                        old(self).max_view(),
                    ) {
                        r == Step::<Date>::Submit(d)
                    } else {
                        r matches Step::Reject(m) && m@ == out_of_range_msg()
                    },
                    Key::Escape | Key::Interrupt => r is Cancel && final(self).value() == d
                        && final(self).seg() == g,
                    _ => r is Continue && final(self).value() == d && final(self).seg() == g,
                }
            }),
    {
        match key {
            Key::Left => {
                self.seg = match self.seg {
                    Seg::Y => Seg::D,
                    Seg::M => Seg::Y,
                    Seg::D => Seg::M,
                };
                Step::Continue
            },
            Key::Right => {
                self.seg = match self.seg {
                    Seg::Y => Seg::M,
                    Seg::M => Seg::D,
                    Seg::D => Seg::Y,
                };
                Step::Continue
            },
            Key::Up => {
                let mut v = self.value;
                adjust(&mut v, self.seg, 1);
                v.clamp();
                self.value = v;
                Step::Continue
            },
            Key::Down => {
                let mut v = self.value;
                adjust(&mut v, self.seg, -1);
                v.clamp();
                self.value = v;
                Step::Continue
            },
            Key::Enter => {
                if !self.within_range() {
                    proof {
                        reveal_strlit("Date out of range");
                    }
                    Step::Reject(owned("Date out of range"))
                } else {
                    Step::Submit(self.value)
                }
            },
            Key::Escape | Key::Interrupt => Step::Cancel,
            _ => Step::Continue,
        }
    }

    /// Label, the date row, key help, bottom row.
    fn render(&self, _ctx: RenderCtx) -> (r: Frame)
        ensures
            rows(r) == self.spec_render(),
    {
        let s = &self.settings;
        let mut f: Frame = Vec::new();
        f.push(label(self.label.as_str(), s));
        let y = fmt_zero_padded(self.value.year as i64, 4);
        let m = fmt_zero_padded(self.value.month as i64, 2);
        let d = fmt_zero_padded(self.value.day as i64, 2);
        let sy = seg_exec(y.as_str(), self.seg == Seg::Y, s);
        let sm = seg_exec(m.as_str(), self.seg == Seg::M, s);
        let sd = seg_exec(d.as_str(), self.seg == Seg::D, s);
        let dash = paint(dim(), "-");
        proof {
            reveal_strlit("-");
        }
        let mut row = paint(dim(), BAR);
        row.append("  ");
        row.append(sy.as_str());
        row.append(dash.as_str());
        row.append(sm.as_str());
        row.append(dash.as_str());
        row.append(sd.as_str());
        f.push(row);
        let help = "← → segment · ↑ ↓ adjust · Enter to confirm";
        proof {
            reveal_strlit("← → segment · ↑ ↓ adjust · Enter to confirm");
        }
        f.push(hint(help, s));
        f.push(frame_bot(None, s));
        proof {
            assert(rows(f) =~= self.spec_render());
        }
        f
    }

    /// Question, the date as `yyyy-mm-dd`, connector.
    fn render_answered(&self, value: &Date) -> (r: Frame)
        ensures
            rows(r) == split_on(
                spec_answered(self.label_view(), iso_text(*value), &self.settings_view()),
                crlf(),
            ),
    {
        let v = value.iso();
        answered_rows(self.label.as_str(), v.as_str(), &self.settings)
    }
}

/// Every ↑ or ↓ step ends on a real calendar date.
pub proof fn law_step_gives_valid_date(d: Date, seg: nat, by: int)
    requires
        step_fits(d, seg, by),
    ensures
        valid_date(stepped(d, seg, by)),
{
    law_clamp_gives_valid_date(adjusted(d, seg, by));
}

/// ← undoes → and → undoes ← on the segments.
pub proof fn law_left_right_inverse(g: nat)
    requires
        g < 3,
    ensures
        ((g + 1) % 3 + 2) % 3 == g,
        ((g + 2) % 3 + 1) % 3 == g,
{
}

} // verus!

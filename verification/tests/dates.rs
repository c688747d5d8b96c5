//! Calendar arithmetic and the date prompt.

use cli_ui::prompt::base::{Key, Prompt, Step};
use cli_ui::prompt::date::{from_unix_days, from_unix_secs, is_leap};
use cli_ui::prompt::{date, Date};

fn d(year: i32, month: u32, day: u32) -> Date {
    Date { year, month, day }
}

#[test]
fn unix_days_to_dates() {
    assert_eq!(from_unix_days(0), d(1970, 1, 1));
    assert_eq!(from_unix_days(10956), d(1999, 12, 31));
    assert_eq!(from_unix_days(11016), d(2000, 2, 29));
    assert_eq!(from_unix_days(19723), d(2024, 1, 1));
}

#[test]
fn unix_seconds_to_dates() {
    assert_eq!(from_unix_secs(0), d(1970, 1, 1));
    assert_eq!(from_unix_secs(86399), d(1970, 1, 1));
    assert_eq!(from_unix_secs(86400 * 19723 + 5), d(2024, 1, 1));
}

#[test]
fn leap_years() {
    assert!(is_leap(2000));
    assert!(!is_leap(1900));
    assert!(is_leap(2024));
    assert!(!is_leap(2023));
}

#[test]
fn iso_is_zero_padded() {
    assert_eq!(d(2026, 6, 3).iso(), "2026-06-03");
    assert_eq!(d(5, 1, 1).iso(), "0005-01-01");
}

#[test]
fn days_in_month_values() {
    assert_eq!(d(2024, 2, 1).days_in_month(), 29);
    assert_eq!(d(2023, 2, 1).days_in_month(), 28);
    assert_eq!(d(2023, 4, 1).days_in_month(), 30);
    assert_eq!(d(2023, 13, 1).days_in_month(), 30);
}

#[test]
fn clamp_wraps_months_and_caps_days() {
    let mut a = d(2024, 0, 15);
    a.clamp();
    assert_eq!(a, d(2023, 12, 15));
    let mut b = d(2024, 13, 40);
    b.clamp();
    assert_eq!(b, d(2025, 1, 31));
    let mut c = d(2023, 2, 30);
    c.clamp();
    assert_eq!(c, d(2023, 2, 28));
    let mut z = d(2024, 2, 0);
    z.clamp();
    assert_eq!(z, d(2024, 2, 29));
}

#[test]
fn today_is_a_calendar_date() {
    let t = Date::today();
    assert!(t.year >= 1970);
    assert!((1..=12).contains(&t.month));
    assert!(t.day >= 1 && t.day <= t.days_in_month());
}

#[test]
fn date_prompt_steps_segments_and_clamps() {
    let mut p = date("When").initial(d(2024, 1, 31));
    assert!(matches!(p.handle(Key::Right), Step::Continue));
    assert!(matches!(p.handle(Key::Up), Step::Continue));
    match p.handle(Key::Enter) {
        Step::Submit(v) => assert_eq!(v, d(2024, 2, 29)),
        other => panic!("got {other:?}"),
    }
}

#[test]
fn date_prompt_left_wraps_to_the_day() {
    let mut p = date("When").initial(d(2024, 3, 1));
    let _ = p.handle(Key::Left);
    let _ = p.handle(Key::Down);
    match p.handle(Key::Enter) {
        Step::Submit(v) => assert_eq!(v, d(2024, 3, 1)),
        other => panic!("got {other:?}"),
    }
    let _ = p.handle(Key::Up);
    match p.handle(Key::Enter) {
        Step::Submit(v) => assert_eq!(v, d(2024, 3, 2)),
        other => panic!("got {other:?}"),
    }
}

#[test]
fn date_prompt_year_steps() {
    let mut p = date("When").initial(d(2024, 2, 29));
    let _ = p.handle(Key::Up);
    match p.handle(Key::Enter) {
        Step::Submit(v) => assert_eq!(v, d(2025, 2, 28)),
        other => panic!("got {other:?}"),
    }
}

#[test]
fn date_prompt_refuses_dates_out_of_range() {
    let mut p = date("When").initial(d(2024, 6, 1)).min(d(2025, 1, 1));
    assert!(!p.within_range());
    match p.handle(Key::Enter) {
        Step::Reject(m) => assert_eq!(m, "Date out of range"),
        other => panic!("got {other:?}"),
    }
    let q = date("When").initial(d(2024, 6, 1)).min(d(2024, 6, 1)).max(d(2024, 6, 1));
    assert!(q.within_range());
}

#[test]
fn date_prompt_cancels() {
    let mut p = date("When").initial(d(2024, 6, 1));
    assert!(matches!(p.handle(Key::Escape), Step::Cancel));
    assert!(matches!(p.handle(Key::Interrupt), Step::Cancel));
}

#[test]
fn date_fallback_lines() {
    let p = date("When").initial(d(2024, 6, 1));
    assert_eq!(p.parse_line(""), Some(d(2024, 6, 1)));
    assert_eq!(p.parse_line("2023-05-07"), Some(d(2023, 5, 7)));
    assert_eq!(p.parse_line("2023-xx-07"), Some(d(2023, 6, 7)));
    assert_eq!(p.parse_line("2023-05"), None);
}

#[test]
fn date_frame_shows_the_date() {
    let p = date("When").initial(d(2024, 6, 1));
    let rows = p.render(cli_ui::prompt::base::RenderCtx { error: None });
    assert_eq!(rows.len(), 4);
    assert!(rows[1].contains("2024"));
    assert!(rows[1].contains("06"));
    assert!(rows[1].contains("01"));
}

#[test]
fn date_bounds_compare_days_not_text() {
    let p = date("d").initial(d(10000, 1, 1)).max(d(9999, 12, 31));
    assert!(!p.within_range());
    let q = date("d").initial(d(999, 1, 1)).min(d(1000, 1, 1));
    assert!(!q.within_range());
    let r = date("d").initial(d(2024, 2, 10)).min(d(2024, 2, 9)).max(d(2024, 3, 1));
    assert!(r.within_range());
}

//! What the prompts print when stdin is not a terminal, and how they read
//! the answer.

use cli_ui::prompt::base::{Key, Step};
use cli_ui::prompt::date::Date;
use cli_ui::prompt::multiline::MultilinePrompt;
use cli_ui::prompt::path::PathPrompt;
use cli_ui::prompt::{
    autocomplete, confirm, date, groupmultiselect, min_chars, multiline, multiselect, path, secret,
    select, select_key, text,
};

fn strip(line: &str) -> String {
    let mut out = String::new();
    let mut chars = line.chars();
    while let Some(c) = chars.next() {
        if c == '\x1b' {
            if matches!(chars.next(), Some('[')) {
                for c in chars.by_ref() {
                    if c.is_ascii_alphabetic() {
                        break;
                    }
                }
            }
        } else {
            out.push(c);
        }
    }
    out
}

#[test]
fn select_fallback_lists_numbered_options() {
    let p = select("Pick").option("a", "Alpha").hint("first").option("b", "Beta");
    assert_eq!(p.fallback_rows(), vec!["  Pick", "  1. Alpha (first)", "  2. Beta"]);
    assert_eq!(p.fallback_ask(), "  Enter number (1–2): ");
    assert_eq!(p.fallback_retry(), "  Please enter a number between 1 and 2.");
    assert!(p.pick_number("3").is_none());
    assert_eq!(p.pick_number("2").map(|s| s.value), Some("b".to_string()));
}

#[test]
fn autocomplete_fallback_lists_numbered_options() {
    let p = autocomplete("Lang").option("rs", "Rust").option("go", "Go").hint("gopher");
    assert_eq!(p.fallback_rows(), vec!["  Lang", "  1. Rust", "  2. Go (gopher)"]);
    assert_eq!(p.fallback_ask(), "  Enter number (1–2): ");
    assert_eq!(p.fallback_retry(), "  Please enter a number between 1 and 2.");
}

#[test]
fn multiselect_fallback_marks_checked_options() {
    let p = multiselect("Pick").option("a", "Alpha").checked().option("b", "Beta").hint("h");
    assert_eq!(
        p.fallback_rows(),
        vec!["  Pick", "  1. ● Alpha", "  2. ○ Beta (h)", "  Enter numbers separated by spaces:"]
    );
}

#[test]
fn groupmultiselect_fallback_numbers_across_groups() {
    let p = groupmultiselect("Features")
        .group("Core")
        .item("fs")
        .item("net")
        .hint("sockets")
        .group("Extra")
        .item("tls");
    assert_eq!(
        p.fallback_rows(),
        vec!["  Features", "  [ Core ]", "    1. fs", "    2. net (sockets)", "  [ Extra ]", "    3. tls"]
    );
    assert_eq!(p.fallback_ask(), "  Enter numbers (space-separated): ");
    let picked = p.pick_numbers("3 1 9 x");
    assert_eq!(picked.values(), vec!["fs".to_string(), "tls".to_string()]);
}

#[test]
fn select_key_fallback_lists_keys() {
    let p = select_key("Action").option('y', "Yes").option('n', "No");
    assert_eq!(p.fallback_rows(), vec!["  Action", "  [y] Yes", "  [n] No"]);
    assert_eq!(p.fallback_ask(), "  Press a key (and Enter): ");
}

#[test]
fn confirm_fallback_question_shows_the_default() {
    assert_eq!(strip(&confirm("Go on?").fallback_ask()), "◆  Go on? [y/n]: ");
    assert_eq!(strip(&confirm("Go on?").default(true).fallback_ask()), "◆  Go on? [Y/n]: ");
    assert_eq!(strip(&confirm("Go on?").default(false).fallback_ask()), "◆  Go on? [y/N]: ");
    assert_eq!(confirm("Go on?").fallback_retry(), "  Please enter y or n: ");
}

#[test]
fn text_fallback_question_and_retry() {
    assert_eq!(strip(&text("Name").fallback_ask()), "◇  Name: ");
    assert_eq!(strip(&text("Name").default("Ann").fallback_ask()), "◇  Name (default: Ann): ");
    let p = text("Name").rule(min_chars(3));
    match p.fallback_answer("Al") {
        Step::Reject(m) => assert_eq!(p.fallback_retry(&m), format!("  ✘ {m}\n  Try again: ")),
        other => panic!("got {other:?}"),
    }
}

#[test]
fn secret_fallback_question_and_retry() {
    let p = secret("Token");
    assert_eq!(strip(&p.fallback_ask()), "◇  Token (input will be visible): ");
    match p.fallback_answer("") {
        Step::Reject(m) => assert_eq!(p.fallback_retry("", &m), "  Value cannot be empty. Try again: "),
        other => panic!("got {other:?}"),
    }
    assert_eq!(p.fallback_retry("x", "bad"), "  ✘ bad\n  Try again: ");
}

#[test]
fn date_fallback_question_shows_the_default() {
    let p = date("When").initial(Date { year: 2024, month: 6, day: 1 });
    assert_eq!(p.fallback_ask(), "  When [yyyy-mm-dd, default 2024-06-01]: ");
}

#[test]
fn multiline_fallback_intro_and_lines() {
    assert_eq!(multiline("Notes").fallback_intro(), "  Notes (end with empty line)");
    assert_eq!(MultilinePrompt::fallback_line("", "a"), Some("a".to_string()));
    assert_eq!(MultilinePrompt::fallback_line("a", "b"), Some("a\nb".to_string()));
    assert_eq!(MultilinePrompt::fallback_line("a", ""), None);
}

#[test]
fn path_fallback_question() {
    assert_eq!(path("Dir").fallback_ask(), "  Dir: ");
    assert_eq!(PathPrompt::fallback_path("/tmp/x"), "/tmp/x");
}

#[test]
fn option_counts_and_readiness() {
    assert_eq!(select("P").option_count(), 0);
    assert_eq!(select("P").option("a", "A").option("b", "B").option_count(), 2);
    assert_eq!(multiselect("P").option("a", "A").option_count(), 1);
    assert_eq!(autocomplete("P").option("a", "A").option_count(), 1);
    assert_eq!(select_key("P").option('a', "A").option_count(), 1);
    assert!(!groupmultiselect("G").groups_filled());
    assert!(!groupmultiselect("G").group("x").groups_filled());
    assert!(groupmultiselect("G").group("x").item("a").groups_filled());
    assert!(!groupmultiselect("G").group("x").item("a").group("y").groups_filled());
}

#[test]
fn date_prompt_refuses_steps_past_the_last_year() {
    let p = date("When").initial(Date { year: i32::MAX, month: 12, day: 1 });
    assert!(!p.key_ok(Key::Up));
    assert!(p.key_ok(Key::Down));
    assert!(p.key_ok(Key::Enter));
    let mut q = date("When").initial(Date { year: i32::MAX, month: 13, day: 1 });
    assert!(q.key_ok(Key::Right));
    let _ = cli_ui::prompt::base::Prompt::handle(&mut q, Key::Left);
    assert!(!q.key_ok(Key::Up));
    let mut r = date("When").initial(Date { year: 2024, month: 5, day: 5 });
    let _ = cli_ui::prompt::base::Prompt::handle(&mut r, Key::Right);
    assert!(r.key_ok(Key::Up));
}

#[test]
fn path_prompt_starts_with_a_slash() {
    let p = path("Dir").initial("/tmp").ready("/home");
    assert_eq!(p.typed(), "/tmp/");
    let q = path("Dir").ready("/home/me/");
    assert_eq!(q.typed(), "/home/me/");
    assert_eq!(q.split(), ("/home/me/".to_string(), String::new()));
}

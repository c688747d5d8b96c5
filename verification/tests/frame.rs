//! The session frame, prompt rows, the viewport, the line editor and the
//! key loop's decisions.

use cli_ui::prompt::base::runner::{decide, needs_clean_redraw, Outcome};
use cli_ui::prompt::base::{Key, Step};
use cli_ui::prompt::cursor::LineBuf;
use cli_ui::prompt::engine::{key_of, KeyCode};
use cli_ui::prompt::group::{group_action, GroupAction};
use cli_ui::prompt::limit_options::limit_options;
use cli_ui::prompt::tasks::task_final;
use cli_ui::prompt::theme::{
    answered, cancel, confirm_line, cursor, error_line, frame_bot, hint, hint_inline, input_bar,
    intro, label, label_state, multi_option, note, outro, text_input,
};
use cli_ui::prompt::{is_cancel, PromptError, Settings};

fn strip(line: &str) -> String {
    cli_ui::styles::strip_ansi(line)
}

#[test]
fn session_frame() {
    let s = Settings::default();
    assert_eq!(strip(&intro("App", &s)), "┌   App \n│");
    assert_eq!(strip(&outro("Done", &s)), "│\n└  Done");
    assert_eq!(strip(&cancel("Bye", &s)), "│\n■  Bye");
}

#[test]
fn note_box_is_at_least_twenty_wide() {
    let s = Settings::default();
    let expected = format!(
        "┌  Title {}┐\n│{}│\n│  hello{}  │\n│{}│\n└{}┘",
        "─".repeat(16),
        " ".repeat(24),
        " ".repeat(15),
        " ".repeat(24),
        "─".repeat(24)
    );
    assert_eq!(strip(&note("Title", "hello", &s)), expected);
}

#[test]
fn note_box_grows_with_its_lines() {
    let s = Settings::default();
    let body = "a line that is longer than twenty";
    let n = strip(&note("T", body, &s));
    let rows: Vec<&str> = n.split('\n').collect();
    assert_eq!(rows.len(), 5);
    assert_eq!(rows[2], format!("│  {body}  │"));
    assert_eq!(rows[0].chars().count(), rows[4].chars().count());
}

#[test]
fn prompt_rows() {
    let s = Settings::default();
    assert_eq!(strip(&label("Name", &s)), "◆  Name");
    assert_eq!(strip(&label_state("Name", true, &s)), "▲  Name");
    assert_eq!(strip(&hint("", &s)), "│");
    assert_eq!(strip(&hint("tip", &s)), "│  tip");
    assert_eq!(strip(&hint_inline(Some("h"), &s)), " (h)");
    assert_eq!(strip(&hint_inline(Some(""), &s)), "");
    assert_eq!(strip(&hint_inline(None, &s)), "");
    assert_eq!(strip(&cursor(true, "A", Some("h"), &s)), "│  ● A (h)");
    assert_eq!(strip(&cursor(false, "A", Some("h"), &s)), "│  ○ A");
    assert_eq!(strip(&multi_option(true, true, "A", None, &s)), "│  ◼ A");
    assert_eq!(strip(&multi_option(false, false, "A", Some("h"), &s)), "│  ◻ A");
    assert_eq!(strip(&text_input("", "type here", &s)), "│  type here");
    assert_eq!(strip(&text_input("abc", "type here", &s)), "│  abc");
    assert_eq!(strip(&confirm_line(true, &s)), "│  ● Yes / ○ No");
    assert_eq!(strip(&confirm_line(false, &s)), "│  ○ Yes / ● No");
    assert_eq!(strip(&error_line("bad", &s)), "│  ✘ bad");
    assert_eq!(strip(&input_bar(true, &s)), "│");
    assert_eq!(strip(&frame_bot(None, &s)), "└");
    assert_eq!(strip(&frame_bot(Some("bad"), &s)), "└  bad");
    assert_eq!(strip(&answered("Name", "Ann", &s)), "◇  Name\r\n│  Ann\r\n│");
}

#[test]
fn rows_follow_the_palette() {
    let mut s = Settings::default();
    s.colors.accent = cli_ui::styles::yellow();
    assert!(label("Name", &s).starts_with("\x1b[33m◆"));
    s.bold_header = false;
    assert!(label("Name", &s).contains("\x1b[97mName"));
}

#[test]
fn viewport_keeps_the_cursor_in_view() {
    let v = limit_options(5, 3, 10);
    assert_eq!((v.start, v.end, v.above, v.below), (0, 5, 0, 0));
    let v = limit_options(20, 0, 5);
    assert_eq!((v.start, v.end, v.above, v.below), (0, 5, 0, 15));
    let v = limit_options(20, 10, 5);
    assert_eq!((v.start, v.end, v.above, v.below), (8, 13, 8, 7));
    let v = limit_options(20, 19, 5);
    assert_eq!((v.start, v.end, v.above, v.below), (15, 20, 15, 0));
}

#[test]
fn line_editor() {
    let mut b = LineBuf::new();
    assert!(b.is_empty());
    for c in "hello world".chars() {
        b.insert(c);
    }
    assert_eq!(b.value(), "hello world");
    b.delete_word_back();
    assert_eq!(b.value(), "hello ");
    b.home();
    b.delete();
    assert_eq!(b.value(), "ello ");
    b.end();
    b.backspace();
    b.left();
    b.insert('X');
    assert_eq!(b.value(), "ellXo");
    b.right();
    b.insert('!');
    assert_eq!(b.value(), "ellXo!");
}

#[test]
fn keys_from_terminal_codes() {
    assert_eq!(key_of(KeyCode::Char('c'), true), Some(Key::Interrupt));
    assert_eq!(key_of(KeyCode::Char('d'), true), Some(Key::Interrupt));
    assert_eq!(key_of(KeyCode::Char('w'), true), Some(Key::DeleteWordBack));
    assert_eq!(key_of(KeyCode::Char('a'), true), Some(Key::Home));
    assert_eq!(key_of(KeyCode::Char('e'), true), Some(Key::End));
    assert_eq!(key_of(KeyCode::Char('x'), true), None);
    assert_eq!(key_of(KeyCode::Up, true), None);
    assert_eq!(key_of(KeyCode::Char('x'), false), Some(Key::Char('x')));
    assert_eq!(key_of(KeyCode::Esc, false), Some(Key::Escape));
    assert_eq!(key_of(KeyCode::Other, false), None);
}

#[test]
fn loop_decisions() {
    assert!(matches!(decide::<u8>(Step::Continue), Outcome::Redraw(None)));
    assert!(matches!(decide::<u8>(Step::Reject("no".to_string())), Outcome::Redraw(Some(m)) if m == "no"));
    assert!(matches!(decide(Step::Submit(7u8)), Outcome::Done(7)));
    assert!(matches!(decide::<u8>(Step::Cancel), Outcome::Cancelled));
    assert!(needs_clean_redraw(&Some("x".to_string())));
    assert!(!needs_clean_redraw(&None));
}

#[test]
fn chained_steps_and_tasks() {
    assert!(matches!(group_action(Ok("v".to_string())), GroupAction::Record(v) if v == "v"));
    assert!(matches!(group_action(Err(PromptError::Interrupted)), GroupAction::Cancel));
    let io = std::io::Error::new(std::io::ErrorKind::Other, "disk");
    assert!(matches!(group_action(Err(PromptError::Io(io))), GroupAction::Fail(PromptError::Io(_))));
    assert_eq!(task_final(Some("built".to_string()), "Build"), "built");
    assert_eq!(task_final(None, "Build"), "Build");
    assert!(is_cancel(&PromptError::Interrupted));
    assert!(!is_cancel(&PromptError::Io(std::io::Error::new(std::io::ErrorKind::Other, "x"))));
}

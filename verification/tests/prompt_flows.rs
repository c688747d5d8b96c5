//! Key handling, frames and fallback answers of the list, key, text and
//! path prompts.

use cli_ui::prompt::autocomplete::autocomplete;
use cli_ui::prompt::base::{Key, Prompt, RenderCtx, Step};
use cli_ui::prompt::groupmultiselect::groupmultiselect;
use cli_ui::prompt::multiline::MultilinePrompt;
use cli_ui::prompt::path::RawEntry;
use cli_ui::prompt::{
    confirm, min_chars, multiline, multiselect, path, secret, select, select_key, text,
};

fn strip(line: &str) -> String {
    let mut out = String::new();
    let mut chars = line.chars();
    while let Some(c) = chars.next() {
        if c == '\x1b' {
            if matches!(chars.next(), Some('[')) {
                for c in chars.by_ref() {
                    if c.is_ascii_alphabetic() {
                        break;
                    }
                }
            }
        } else {
            out.push(c);
        }
    }
    out
}

fn frame<P: Prompt>(p: &P) -> Vec<String> {
    p.render(RenderCtx { error: None }).iter().map(|l| strip(l)).collect()
}

// ── multiselect ──────────────────────────────────────────────────────────────

#[test]
fn multiselect_space_toggles_and_enter_collects() {
    let mut p = multiselect("Pick")
        .option("a", "Alpha")
        .option("b", "Beta")
        .checked()
        .option("c", "Gamma");
    assert!(matches!(p.handle(Key::Char(' ')), Step::Continue));
    let _ = p.handle(Key::Down);
    let _ = p.handle(Key::Down);
    let _ = p.handle(Key::Char(' '));
    match p.handle(Key::Enter) {
        Step::Submit(sel) => {
            assert_eq!(sel.indices(), vec![0, 1, 2]);
            assert_eq!(sel.values(), vec!["a".to_string(), "b".to_string(), "c".to_string()]);
            assert_eq!(sel.len(), 3);
            assert!(!sel.is_empty());
            assert_eq!(sel.iter()[2], (2, "c".to_string()));
        }
        other => panic!("got {other:?}"),
    }
}

#[test]
fn multiselect_space_twice_restores() {
    let mut p = multiselect("Pick").option("a", "Alpha").option("b", "Beta");
    let before = p.collect().indices();
    let _ = p.handle(Key::Char(' '));
    let _ = p.handle(Key::Char(' '));
    assert_eq!(p.collect().indices(), before);
}

#[test]
fn multiselect_required_refuses_empty() {
    let mut p = multiselect("Pick").option("a", "Alpha").required(true);
    match p.handle(Key::Enter) {
        Step::Reject(m) => assert_eq!(m, "Select at least one option"),
        other => panic!("got {other:?}"),
    }
}

#[test]
fn multiselect_frame_has_help_and_checkboxes() {
    let p = multiselect("Pick").option("a", "Alpha").checked().option("b", "Beta");
    let f = frame(&p);
    assert_eq!(f.len(), 6);
    assert!(f[0].contains("Pick"));
    assert!(f[2].contains("◼") && f[2].contains("Alpha"));
    assert!(f[3].contains("◻") && f[3].contains("Beta"));
    assert_eq!(f[4], "│  Space to toggle · Enter to confirm");
}

#[test]
fn multiselect_fallback_numbers() {
    let p = multiselect("Pick").option("a", "Alpha").option("b", "Beta").option("c", "Gamma");
    let sel = p.pick_numbers(" 3  x 1 9 +2");
    assert_eq!(sel.indices(), vec![0, 1, 2]);
    assert_eq!(sel.values(), vec!["a".to_string(), "b".to_string(), "c".to_string()]);
    let once = p.pick_numbers("3 1 3");
    assert_eq!(once.indices(), vec![0, 2]);
    assert_eq!(once.values(), vec!["a".to_string(), "c".to_string()]);
}

#[test]
fn multiselect_answered_lists_labels() {
    let mut p = multiselect("Pick").option("a", "Alpha").option("b", "Beta");
    let _ = p.handle(Key::Char(' '));
    let sel = p.collect();
    let rows: Vec<String> = p.render_answered(&sel).iter().map(|l| strip(l)).collect();
    assert!(rows[1].contains("Alpha"));
    let none = multiselect("Pick").option("a", "Alpha").collect();
    let rows: Vec<String> = p.render_answered(&none).iter().map(|l| strip(l)).collect();
    assert!(rows[1].contains("none"));
}

#[test]
fn multiselect_scrolls_with_more_markers() {
    let mut p = multiselect("Pick").max_items(2);
    for i in 0..5 {
        let v = format!("v{i}");
        p = p.option(&v, &v);
    }
    for _ in 0..4 {
        let _ = p.handle(Key::Down);
    }
    let f = frame(&p);
    assert!(f.iter().any(|l| l.contains("↑ 3 more")));
}

// ── grouped multiselect ─────────────────────────────────────────────────────

#[test]
fn groupmultiselect_header_toggles_group() {
    let mut p = groupmultiselect("Tools")
        .group("Lint")
        .item("clippy")
        .item("deny")
        .group("Format")
        .item("rustfmt")
        .checked()
        .ready();
    let _ = p.handle(Key::Char(' '));
    match p.handle(Key::Enter) {
        Step::Submit(sel) => {
            assert_eq!(sel.values(), vec!["clippy".to_string(), "deny".to_string(), "rustfmt".to_string()]);
            assert_eq!(sel.group_values("Lint"), vec!["clippy".to_string(), "deny".to_string()]);
            assert_eq!(sel.len(), 3);
            let items = sel.iter();
            assert_eq!(items[2].group, "Format");
            assert_eq!(items[2].index, 0);
        }
        other => panic!("got {other:?}"),
    }
    let _ = p.handle(Key::Char(' '));
    match p.handle(Key::Enter) {
        Step::Submit(sel) => assert_eq!(sel.values(), vec!["rustfmt".to_string()]),
        other => panic!("got {other:?}"),
    }
}

#[test]
fn groupmultiselect_item_toggle_and_required() {
    let mut p = groupmultiselect("Tools").group("G").item("x").item("y").required(true).ready();
    match p.handle(Key::Enter) {
        Step::Reject(m) => assert_eq!(m, "Select at least one option"),
        other => panic!("got {other:?}"),
    }
    let _ = p.handle(Key::Down);
    let _ = p.handle(Key::Down);
    let _ = p.handle(Key::Char(' '));
    match p.handle(Key::Enter) {
        Step::Submit(sel) => {
            assert_eq!(sel.values(), vec!["y".to_string()]);
            assert_eq!(sel.iter()[0].index, 1);
        }
        other => panic!("got {other:?}"),
    }
}

#[test]
fn groupmultiselect_frame_rows() {
    let p = groupmultiselect("Tools").group("G").item("x").hint("first").item("y").ready();
    let f = frame(&p);
    assert_eq!(f.len(), 7);
    assert_eq!(f[2], "│  ❯ ◻ G");
    assert_eq!(f[3], "│    │   ◻ x (first)");
    assert_eq!(f[4], "│    └   ◻ y");
    assert_eq!(f[5], "│  Space to toggle · ↑/↓ to navigate · Enter to confirm");
}

#[test]
fn groupmultiselect_fallback_numbers_span_groups() {
    let p = groupmultiselect("Tools").group("A").item("a1").group("B").item("b1").item("b2").ready();
    let sel = p.pick_numbers("3 1 4 3");
    let items = sel.iter();
    assert_eq!(items.len(), 2);
    assert_eq!((items[0].group.as_str(), items[0].value.as_str(), items[0].index), ("A", "a1", 0));
    assert_eq!((items[1].group.as_str(), items[1].value.as_str(), items[1].index), ("B", "b2", 1));
    let one = groupmultiselect("Tools").group("Lint").item("clippy").group("Format").item("rustfmt");
    let s = one.pick_numbers("2");
    let it = s.iter();
    assert_eq!(it.len(), 1);
    assert_eq!((it[0].group.as_str(), it[0].value.as_str(), it[0].index), ("Format", "rustfmt", 0));
}

// ── autocomplete ─────────────────────────────────────────────────────────────

#[test]
fn autocomplete_filters_case_insensitively() {
    let mut p = autocomplete("Package")
        .option("axum", "Axum")
        .option("rocket", "Rocket")
        .option("warp", "Warp");
    for c in "RO".chars() {
        let _ = p.handle(Key::Char(c));
    }
    assert_eq!(p.filter(), vec![1]);
    match p.handle(Key::Enter) {
        Step::Submit(sel) => {
            assert_eq!(sel.value(), "rocket");
            assert_eq!(sel.label(), "Rocket");
        }
        other => panic!("got {other:?}"),
    }
}

#[test]
fn autocomplete_no_matches_and_backspace() {
    let mut p = autocomplete("Package").option("axum", "Axum").placeholder("type…");
    let f = frame(&p);
    assert_eq!(f[2], "│  Search: type…");
    let _ = p.handle(Key::Char('z'));
    let f = frame(&p);
    assert_eq!(f[3], "│  No matches");
    assert!(matches!(p.handle(Key::Enter), Step::Continue));
    let _ = p.handle(Key::Backspace);
    assert_eq!(p.filter(), vec![0]);
}

#[test]
fn autocomplete_caps_rows_and_moves() {
    let mut p = autocomplete("Pick").max_items(2).option("a1", "a1").option("a2", "a2").option("a3", "a3");
    assert_eq!(p.filter(), vec![0, 1]);
    let _ = p.handle(Key::Down);
    let _ = p.handle(Key::Down);
    match p.handle(Key::Enter) {
        Step::Submit(sel) => assert_eq!(sel.value(), "a2"),
        other => panic!("got {other:?}"),
    }
    let sel = p.pick_number("3").unwrap();
    assert_eq!(sel.label(), "a3");
    assert!(p.pick_number("0").is_none());
    assert!(p.pick_number("x").is_none());
}

// ── select_key ───────────────────────────────────────────────────────────────

#[test]
fn select_key_ignores_ascii_case_by_default() {
    let mut p = select_key("Apply?").option('y', "Yes").option('n', "No");
    match p.handle(Key::Char('Y')) {
        Step::Submit(sel) => {
            assert_eq!(sel.key, 'Y');
            assert_eq!(sel.label, "Yes");
        }
        other => panic!("got {other:?}"),
    }
    let mut q = select_key("Apply?").option('y', "Yes").case_sensitive(true);
    assert!(matches!(q.handle(Key::Char('Y')), Step::Continue));
    assert!(matches!(q.handle(Key::Escape), Step::Cancel));
}

#[test]
fn select_key_frame_and_fallback() {
    let p = select_key("Apply?").option('y', "Yes").hint("default");
    let f = frame(&p);
    assert_eq!(f[2], "│   y  Yes (default)");
    assert_eq!(f[3], "│  press the highlighted key");
    assert_eq!(p.pick_line("yes").unwrap().label, "Yes");
    assert_eq!(p.pick_line("Yes").unwrap().key, 'Y');
    assert!(p.pick_line("").is_none());
    assert!(p.pick_line("q").is_none());
}

// ── multiline ────────────────────────────────────────────────────────────────

#[test]
fn multiline_double_enter_submits() {
    let mut p = multiline("Bio");
    for c in "hi".chars() {
        let _ = p.handle(Key::Char(c));
    }
    assert!(matches!(p.handle(Key::Enter), Step::Continue));
    let _ = p.handle(Key::Char('x'));
    assert!(matches!(p.handle(Key::Enter), Step::Continue));
    match p.handle(Key::Enter) {
        Step::Submit(v) => assert_eq!(v, "hi\nx"),
        other => panic!("got {other:?}"),
    }
}

#[test]
fn multiline_enter_on_empty_line_submits_the_lines_above() {
    let mut p = multiline("Bio");
    let _ = p.handle(Key::Char('a'));
    assert!(matches!(p.handle(Key::Enter), Step::Continue));
    match p.handle(Key::Enter) {
        Step::Submit(v) => assert_eq!(v, "a"),
        other => panic!("got {other:?}"),
    }
    let mut q = multiline("Bio");
    assert!(matches!(q.handle(Key::Enter), Step::Continue));
}

#[test]
fn multiline_submit_button_and_backspace() {
    let mut p = multiline("Bio").show_submit(true);
    let _ = p.handle(Key::Char('a'));
    let _ = p.handle(Key::Enter);
    let _ = p.handle(Key::Backspace);
    let _ = p.handle(Key::Char('\t'));
    let f = frame(&p);
    assert!(f.iter().any(|l| l == "│  [ submit ]"));
    match p.handle(Key::Enter) {
        Step::Submit(v) => assert_eq!(v, "a"),
        other => panic!("got {other:?}"),
    }
}

#[test]
fn multiline_rule_rejects() {
    let mut p = multiline("Bio").show_submit(true).rule(min_chars(3));
    let _ = p.handle(Key::Char('a'));
    let _ = p.handle(Key::Char('\t'));
    assert!(matches!(p.handle(Key::Enter), Step::Reject(_)));
}

#[test]
fn multiline_answered_snippet_and_fallback() {
    let p = multiline("Bio");
    let long = format!("{}\nsecond", "x".repeat(50));
    let rows: Vec<String> = p.render_answered(&long).iter().map(|l| strip(l)).collect();
    assert!(rows[1].ends_with(&format!("{} …", "x".repeat(40))));
    assert_eq!(MultilinePrompt::fallback_line("", "a"), Some("a".to_string()));
    assert_eq!(MultilinePrompt::fallback_line("a", "b"), Some("a\nb".to_string()));
    assert_eq!(MultilinePrompt::fallback_line("a", ""), None);
}

// ── path ─────────────────────────────────────────────────────────────────────

fn raw(name: &str, is_dir: bool) -> RawEntry {
    RawEntry { name: name.to_string(), path: format!("/tmp/{name}"), is_dir }
}

#[test]
fn path_listing_orders_dirs_first_and_filters() {
    let mut p = path("Where?").initial("/tmp/s").ready("/home");
    assert_eq!(frame(&p)[1], "│  /tmp/s/");
    let _ = p.handle(Key::Backspace);
    let (dir, frag) = p.split();
    assert_eq!((dir.as_str(), frag.as_str()), ("/tmp/", "s"));
    p.set_listing(vec![raw("src2", false), raw("zeta", true), raw("src", true), raw("sa", false)], false);
    let f = frame(&p);
    assert_eq!(f.len(), 7);
    assert_eq!(f[2], "│  ❯ src/");
    assert_eq!(f[3], "│    sa ");
    assert_eq!(f[4], "│    src2 ");
    let mut q = path("Where?").initial("/tmp/").ready("/");
    q.set_listing(vec![raw("b", false), raw("a", false), raw("c", true)], false);
    let f = frame(&q);
    assert_eq!(f[2], "│  ❯ c/");
    assert_eq!(f[3], "│    a ");
    assert_eq!(f[4], "│    b ");
    let _ = q.handle(Key::Char('\t'));
    match q.handle(Key::Enter) {
        Step::Submit(v) => assert_eq!(v, "/tmp/c/"),
        other => panic!("got {other:?}"),
    }
}

#[test]
fn path_directory_only_refuses_files() {
    let mut p = path("Where?").directory(true).ready("/work");
    p.set_listing(vec![raw("x", false)], false);
    assert!(frame(&p)[2].contains("(no matches)"));
    match p.handle(Key::Enter) {
        Step::Reject(m) => assert_eq!(m, "Not a directory"),
        other => panic!("got {other:?}"),
    }
    p.set_listing(vec![], true);
    match p.handle(Key::Enter) {
        Step::Submit(v) => assert_eq!(v, "/work/"),
        other => panic!("got {other:?}"),
    }
}

// ── fallback answers ────────────────────────────────────────────────────────

#[test]
fn select_fallback_numbers() {
    let p = select("Pick").option("a", "Alpha").option("b", "Beta");
    let s = p.pick_number("2").unwrap();
    assert_eq!((s.index, s.value.as_str(), s.label.as_str()), (1, "b", "Beta"));
    assert!(p.pick_number("3").is_none());
    assert!(p.pick_number("-1").is_none());
}

#[test]
fn confirm_fallback_words() {
    let p = confirm("Go?").default(false);
    assert_eq!(p.fallback_answer("YES"), Some(true));
    assert_eq!(p.fallback_answer("n"), Some(false));
    assert_eq!(p.fallback_answer(""), Some(false));
    assert_eq!(p.fallback_answer("maybe"), None);
    assert_eq!(confirm("Go?").fallback_answer(""), None);
}

#[test]
fn text_and_secret_fallback_answers() {
    let t = text("Name").default("Bob").rule(min_chars(3));
    assert!(matches!(t.fallback_answer(""), Step::Submit(ref v) if v == "Bob"));
    assert!(matches!(t.fallback_answer("Al"), Step::Reject(_)));
    let s = secret("Key");
    match s.fallback_answer("") {
        Step::Reject(m) => assert_eq!(m, "Value cannot be empty"),
        other => panic!("got {other:?}"),
    }
    assert!(matches!(s.fallback_answer("k"), Step::Submit(ref v) if v == "k"));
}

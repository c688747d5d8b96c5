//! The rows that the log, stream, task log, progress bar, spinner, box,
//! download progress, summary and help page produce, with and without
//! their ANSI codes.

use cli_ui::help::{render, style_desc, style_flag_part, style_key, style_usage, visible_width};
use cli_ui::help::{HelpEntry, HelpSection};
use cli_ui::progress::{fail_url_budget, ok_url_budget, substep, truncate_url};
use cli_ui::report::{header_rows, ok_row, phase_row, step_rows};
use cli_ui::prompt::boxed::pad_for;
use cli_ui::prompt::spinner::{final_line, format_timer, frame_glyph, frame_line, trim_dots, Status};
use cli_ui::prompt::{boxed, log, progress, stream, task_log, BoxAlign, ProgressStyle, Settings};
use cli_ui::styles::{badge_cyan, cyan, dim, paint, strip_ansi, theme_styles, AnsiColor, Style};
use cli_ui::{Progress, Summary};

fn strip(line: &str) -> String {
    let mut out = String::new();
    let mut chars = line.chars();
    while let Some(c) = chars.next() {
        if c == '\x1b' {
            if matches!(chars.next(), Some('[')) {
                for c in chars.by_ref() {
                    if c.is_ascii_alphabetic() {
                        break;
                    }
                }
            }
        } else {
            out.push(c);
        }
    }
    out
}

fn strip_all(rows: &[String]) -> Vec<String> {
    rows.iter().map(|r| strip(r)).collect()
}

// ── paint ────────────────────────────────────────────────────────────────────

#[test]
fn paint_wraps_text_in_codes_and_reset() {
    assert_eq!(paint(cyan(), "x"), "\x1b[36mx\x1b[0m");
    assert_eq!(paint(dim(), "ab"), "\x1b[90mab\x1b[0m");
}

#[test]
fn paint_with_plain_style_adds_nothing() {
    assert_eq!(paint(Style::new(), "plain"), "plain");
}

#[test]
fn paint_bold_badge_puts_effects_first() {
    let s = Style { fg: Some(AnsiColor::BrightWhite), bg: Some(AnsiColor::Cyan), bold: true, underline: false };
    assert_eq!(paint(s, "x"), "\x1b[1m\x1b[97m\x1b[46mx\x1b[0m");
}

#[test]
fn paint_underline_and_bright_background() {
    let s = Style { fg: Some(AnsiColor::Black), bg: Some(AnsiColor::BrightRed), bold: true, underline: true };
    assert_eq!(paint(s, "x"), "\x1b[1m\x1b[4m\x1b[30m\x1b[101mx\x1b[0m");
    let u = Style { fg: None, bg: Some(AnsiColor::Yellow), bold: false, underline: true };
    assert_eq!(paint(u, "y"), "\x1b[4m\x1b[43my\x1b[0m");
}

#[test]
fn strip_ansi_undoes_paint() {
    let s = Style { fg: Some(AnsiColor::BrightBlue), bg: Some(AnsiColor::BrightWhite), bold: true, underline: true };
    for style in [s, cyan(), dim(), badge_cyan(), Style::new()] {
        assert_eq!(strip_ansi(&paint(style, "héllo [x]")), "héllo [x]");
    }
}

#[test]
fn theme_styles_by_name() {
    let (badge, accent) = theme_styles("green");
    assert_eq!(badge.bg, Some(AnsiColor::Green));
    assert_eq!(accent.fg, Some(AnsiColor::Green));
    assert!(accent.bold);
    let (_, purple) = theme_styles("purple");
    assert_eq!(purple.fg, Some(AnsiColor::BrightMagenta));
    let (other_badge, other) = theme_styles("unheard-of");
    assert_eq!(other_badge.bg, Some(AnsiColor::Cyan));
    assert_eq!(other.fg, Some(AnsiColor::Cyan));
}

// ── log ──────────────────────────────────────────────────────────────────────

#[test]
fn log_message_frames_every_line() {
    let rows = strip_all(&log::message("hello\n\nworld", "●"));
    assert_eq!(rows, vec!["│", "●  hello", "│", "│  world"]);
}

#[test]
fn log_message_empty_is_the_symbol_alone() {
    let rows = strip_all(&log::message("", "●"));
    assert_eq!(rows, vec!["│", "●"]);
}

#[test]
fn log_levels_use_their_symbols() {
    let s = Settings::default();
    assert_eq!(strip_all(&log::info("i", &s))[1], "●  i");
    assert_eq!(strip_all(&log::success("s", &s))[1], "◆  s");
    assert_eq!(strip_all(&log::step("t", &s))[1], "◇  t");
    assert_eq!(strip_all(&log::warn("w", &s))[1], "▲  w");
    assert_eq!(strip_all(&log::warning("w", &s))[1], "▲  w");
    assert_eq!(strip_all(&log::error("e", &s))[1], "■  e");
    // The symbol carries the palette's colour.
    assert!(log::info("i", &s)[1].starts_with("\x1b[36m●"));
}

// ── stream ───────────────────────────────────────────────────────────────────

#[test]
fn stream_splits_chunks_into_framed_lines() {
    let chunks = vec!["ab\ncd".to_string(), "ef".to_string()];
    assert_eq!(strip(&stream::message(&chunks, "◆")), "│\n◆  ab\n│  cd\n│  ef\n");
}

#[test]
fn stream_without_chunks_is_the_connector() {
    assert_eq!(strip(&stream::message(&Vec::new(), "◆")), "│\n\n");
}

// ── task log ─────────────────────────────────────────────────────────────────

#[test]
fn task_log_keeps_only_the_newest_lines() {
    let mut t = task_log("Build").limit(2);
    assert_eq!(strip_all(&t.render_intro()), vec!["│", "◆  Build", "│"]);
    assert_eq!(strip(&t.message("a")), "│  a");
    let _ = t.message("b");
    let _ = t.message("c");
    assert_eq!(strip_all(&t.error("failed")), vec!["■  failed", "│  b", "│  c"]);
    let (erase, row) = t.success("done");
    assert_eq!(erase, 3);
    assert_eq!(strip(&row), "◇  done");
}

#[test]
fn task_log_success_clears_the_shown_rows() {
    let mut t = task_log("Build");
    assert_eq!(t.success("nothing yet").0, 0);
    let _ = t.message("step 1");
    let _ = t.message("step 2");
    let (erase, row) = t.success("done");
    assert_eq!(erase, 2);
    assert_eq!(strip(&row), "◇  done");
    let _ = t.message("a\nb");
    assert_eq!(t.success("done").0, 4);
}

#[test]
fn task_log_splits_multi_line_messages() {
    let mut t = task_log("Job");
    let _ = t.message("one\ntwo");
    assert_eq!(strip_all(&t.error("x")), vec!["■  x", "│  one", "│  two"]);
}

// ── progress bar ─────────────────────────────────────────────────────────────

#[test]
fn progress_bar_fills_in_proportion() {
    let s = Settings::default();
    let p = progress().size(10).max(4);
    let line = p.render_with("Copying", 1, &s);
    assert_eq!(line, "\x1b[36m━━\x1b[0m\x1b[90m━━━━━━━━\x1b[0m Copying");
}

#[test]
fn progress_bar_advance_stops_at_max() {
    let s = Settings::default();
    let mut p = progress().style(ProgressStyle::Block).size(4).max(2);
    let _ = p.start("go", &s);
    let line = p.advance(5, Some("done".to_string()), &s);
    assert_eq!(strip(&line), "████ done");
    let line = p.message("again", &s);
    assert_eq!(line, "\x1b[36m████\x1b[0m\x1b[90m\x1b[0m again");
}

#[test]
fn progress_bar_zero_size_and_max_become_one() {
    let s = Settings::default();
    let p = progress().style(ProgressStyle::Light).size(0).max(0);
    assert_eq!(strip(&p.render_with("m", 1, &s)), "─ m");
}

// ── spinner ──────────────────────────────────────────────────────────────────

#[test]
fn spinner_frames_cycle() {
    assert_eq!(frame_glyph(0), "◒");
    assert_eq!(frame_glyph(1), "◐");
    assert_eq!(frame_glyph(2), "◓");
    assert_eq!(frame_glyph(3), "◑");
    assert_eq!(frame_glyph(5), "◐");
}

#[test]
fn spinner_timer_text() {
    assert_eq!(format_timer(0), "[0s]");
    assert_eq!(format_timer(59), "[59s]");
    assert_eq!(format_timer(60), "[1m 0s]");
    assert_eq!(format_timer(125), "[2m 5s]");
}

#[test]
fn spinner_trims_trailing_dots() {
    assert_eq!(trim_dots("Loading..."), "Loading");
    assert_eq!(trim_dots("a.b"), "a.b");
    assert_eq!(trim_dots("..."), "");
}

#[test]
fn spinner_frame_line_dots_and_timer() {
    let s = Settings::default();
    assert_eq!(strip(&frame_line(1, 16, "Loading", None, &s)), "\r◐  Loading..");
    assert_eq!(strip(&frame_line(0, 200, "Loading", None, &s)), "\r◒  Loading...");
    assert_eq!(strip(&frame_line(0, 3, "Loading", Some(65), &s)), "\r◒  Loading [1m 5s]");
}

#[test]
fn spinner_final_line_falls_back_to_running_message() {
    let s = Settings::default();
    assert_eq!(strip(&final_line(Status::Submit, "", "Loading", &s)), "\r◇  Loading\n");
    assert_eq!(strip(&final_line(Status::Cancel, "Stopped", "Loading", &s)), "\r■  Stopped\n");
    assert_eq!(strip(&final_line(Status::Error, "Failed", "Loading", &s)), "\r▲  Failed\n");
}

// ── box ──────────────────────────────────────────────────────────────────────

#[test]
fn box_fits_its_content() {
    let b = boxed("hi", "T");
    assert_eq!(strip(&b.render()), "╭─T─────╮\n│  hi   │\n╰───────╯");
}

#[test]
fn box_centres_title_and_squares_corners() {
    let b = boxed("hi", "T").title_align(BoxAlign::Center).rounded(false);
    assert_eq!(strip(&b.render()), "┌───T───┐\n│  hi   │\n└───────┘");
}

#[test]
fn box_with_empty_body_keeps_one_row() {
    let b = boxed("", "T");
    assert_eq!(strip(&b.render()), "╭─T─────╮\n│       │\n╰───────╯");
}

#[test]
fn box_with_fixed_width_and_right_aligned_body() {
    let b = boxed("hi", "").width(10).content_align(BoxAlign::Right);
    assert_eq!(strip(&b.render()), "╭──────────╮\n│      hi  │\n╰──────────╯");
}

#[test]
fn box_rows_are_equally_wide() {
    for align in [BoxAlign::Left, BoxAlign::Center, BoxAlign::Right] {
        let b = boxed("a\nlonger line\nmé", "Title").content_align(align);
        let rows: Vec<usize> = strip(&b.render()).split('\n').map(|r| r.chars().count()).collect();
        assert!(rows.iter().all(|w| *w == rows[0]), "{rows:?}");
    }
}

#[test]
fn box_padding_splits_the_room() {
    assert_eq!(pad_for(2, 10, 1, BoxAlign::Left), (1, 7));
    assert_eq!(pad_for(2, 10, 1, BoxAlign::Center), (4, 4));
    assert_eq!(pad_for(2, 10, 1, BoxAlign::Right), (7, 1));
    assert_eq!(pad_for(12, 10, 1, BoxAlign::Center), (0, 0));
}

// ── download progress ────────────────────────────────────────────────────────

#[test]
fn download_lines_count_up() {
    let mut p = Progress::new(3);
    let ok = p.ok("dl", "net", "http://x/a", "/tmp/a", "1 KB", 120);
    assert_eq!(strip(&ok), "   (1/3)  [dl    ]  [net   ]  http://x/a  →  /tmp/a  [1 KB]");
    let bad = p.fail("dl", "http://x/b", "timeout", 120);
    assert_eq!(strip(&bad), "   (2/3)  [dl    ]  [error ]  http://x/b  (timeout)");
    assert_eq!(p.finish(), "");
}

#[test]
fn download_url_is_cut_from_the_left() {
    assert_eq!(truncate_url("https://example.com/very/long/path", 10), "…long/path");
    assert_eq!(truncate_url("short", 10), "short");
}

#[test]
fn download_line_cuts_long_urls_to_the_terminal() {
    let mut p = Progress::new(1);
    let url = "https://example.com/aaaaaaaaaaaaaaaaaaaaaaaaaaaaaaaaaaaaaaaaaaaaaaaaaaaaaaaaaaaaaaaaaaaaaaaaaaaaaaaaaaaaaaaaaaaaaaaaaaaaaaaaaaaaaaaaaaaaaaaaa/end";
    let line = strip(&p.ok("dl", "net", url, "/a", "1 B", 60));
    // 60 columns leave 20 for the URL: `…` and its last 19 bytes.
    assert!(line.contains("  …aaaaaaaaaaaaaaa/end  "));
}

#[test]
fn substep_line() {
    assert_eq!(strip(&substep("u", "l")), "      └─  u  →  l");
}

// ── summary ──────────────────────────────────────────────────────────────────

#[test]
fn summary_aligns_stat_keys_per_section() {
    let s = Summary::new().done("Built").stat("files", "3").stat("size", "10 KB").section().warn("slow").stat("k", "v");
    let rows = strip_all(&s.render(10));
    assert_eq!(
        rows,
        vec![
            "",
            " ──────────",
            "",
            "    DONE   Built",
            "   files   3",
            "    size   10 KB",
            "    WARN   slow",
            "   k   v",
            "",
            " ──────────",
            "",
        ]
    );
}

#[test]
fn summary_rule_is_at_most_eighty_wide() {
    let rows = strip_all(&Summary::new().blank().render(200));
    assert_eq!(rows[1].chars().count(), 81);
    assert_eq!(rows[3], "");
}

#[test]
fn summary_default_is_empty() {
    let rows = strip_all(&Summary::default().render(3));
    assert_eq!(rows, vec!["", " ───", "", "", " ───", ""]);
}

// ── help ─────────────────────────────────────────────────────────────────────

#[test]
fn help_styling_keeps_the_text() {
    let (_, accent) = theme_styles("cyan");
    assert_eq!(strip(&style_key("-p, --port <N>", accent)), "-p, --port <N>");
    assert_eq!(strip(&style_desc("Port to bind (default: 80)")), "Port to bind (default: 80)");
    assert_eq!(strip(&style_flag_part("--port")), "--port");
    assert_eq!(strip(&style_usage("tool [OPTIONS] <FILE>", accent)), "tool [OPTIONS] <FILE>");
}

#[test]
fn visible_width_counts_characters() {
    assert_eq!(visible_width("ab"), 2);
    assert_eq!(visible_width("héllo"), 5);
}

#[test]
fn help_page_rows() {
    let (badge, accent) = theme_styles("cyan");
    let sections = vec![HelpSection {
        title: "Options".to_string(),
        entries: vec![
            HelpEntry::Pair { key: "-p, --port <N>".to_string(), desc: "Port".to_string() },
            HelpEntry::Pair { key: "-h".to_string(), desc: "Help".to_string() },
            HelpEntry::Detail("more".to_string()),
        ],
    }];
    let examples = vec!["tool -p 80".to_string()];
    let rows = strip_all(&render(
        "tool", "1.0", "Does things", "fast", "https://x", "tool [OPTIONS]", &sections, &examples, "see docs", badge,
        accent,
    ));
    assert_eq!(
        rows,
        vec![
            "",
            "◆ tool v1.0",
            "│  Does things · fast",
            "",
            "◆ Usage",
            "│  tool [OPTIONS]",
            "",
            "◆ Options",
            "│  -p, --port <N>  Port",
            "│  -h              Help",
            "│  more",
            "",
            "◆ Examples",
            "│  $ tool -p 80",
            "",
            "◆ Notes",
            "│  ➜ see docs",
            "",
            "◆ Link",
            "│  https://x",
            "",
        ]
    );
}

// ── streaming in chunks ──────────────────────────────────────────────────────

#[test]
fn stream_chunks_add_up_to_the_whole() {
    let chunks = vec!["ab\ncd".to_string(), "ef".to_string(), "".to_string()];
    let mut text = stream::stream_head();
    let mut started = false;
    for c in &chunks {
        let (t, now) = stream::chunk_text(c, started, "◆");
        text.push_str(&t);
        started = now;
    }
    text.push('\n');
    assert_eq!(text, stream::message(&chunks, "◆"));
    assert!(started);
}

#[test]
fn stream_first_chunk_gets_the_symbol() {
    let (t, now) = stream::chunk_text("x", false, "◆");
    assert_eq!(strip(&t), "◆  x");
    assert!(now);
    let (t, _) = stream::chunk_text("x", true, "◆");
    assert_eq!(strip(&t), "\n│  x");
}

// ── report lines ─────────────────────────────────────────────────────────────

#[test]
fn report_rows() {
    assert_eq!(
        strip_all(&header_rows("tool", "2.0", "Builds", "fast", badge_cyan())),
        vec!["", "   tool   v2.0", " Builds — fast", ""]
    );
    assert_eq!(strip(&phase_row("init", "reading file.html")), " ▶  init  reading file.html");
    assert_eq!(strip_all(&step_rows("downloading")), vec!["", " ▸  downloading"]);
    assert_eq!(strip(&ok_row("dist/index.html")), "   ✓  dist/index.html");
}

// ── download budgets ─────────────────────────────────────────────────────────

#[test]
fn download_budgets_and_cuts() {
    // 3 + 8 + 8 + 4 + 2 + 3 + 12 = 40 fixed columns.
    assert_eq!(ok_url_budget("/a", "1 B", 100), 60);
    assert_eq!(ok_url_budget("/a", "1 B", 50), 20);
    // 3 + 8 + 8 + 4 + 7 + 6 = 36 fixed columns.
    assert_eq!(fail_url_budget("timeout", 100), 64);
    // The URL is cut by characters, never inside one.
    assert_eq!(truncate_url("https://ex.com/ü", 2), "…ü");
    assert_eq!(truncate_url("ü", 1), "ü");
    assert_eq!(truncate_url("aéb", 2), "…b");
}

#[test]
fn progress_bar_drawable() {
    assert!(progress().can_draw());
    assert!(!progress().size(usize::MAX).max(u64::MAX).can_draw());
}

// ── plain output ─────────────────────────────────────────────────────────────

#[test]
fn strip_ansi_removes_control_sequences() {
    assert_eq!(strip_ansi(&paint(cyan(), "x")), "x");
    assert_eq!(strip_ansi("\r\x1b[2K◒  Loading"), "\r◒  Loading");
    assert_eq!(strip_ansi("plain │ text"), "plain │ text");
    assert_eq!(strip_ansi("a\x1bb"), "a\x1bb");
    assert_eq!(strip_ansi("a\x1b"), "a\x1b");
    assert_eq!(strip_ansi("a\x1b[1;2"), "a");
    let rows: Vec<String> = log::message("hi\nthere", "●").iter().map(|r| strip_ansi(r)).collect();
    assert_eq!(rows, vec!["│", "●  hi", "│  there"]);
}

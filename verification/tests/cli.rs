//! Command-line helpers: global flags, the error and help rows, glob
//! matching and command suggestions.

use cli_ui::matching::{did_you_mean, edit_distance};
use cli_ui::styles::theme_styles;
use cli_ui::{
    glob_is_defined, glob_match, parse_global_flags, print_error, print_missing_args, print_missing_subcommand,
    print_sub_usage, print_unit_help, print_unknown_subcommand, print_version, print_warning,
    split_global_args, CliError, CliOptions,
};

fn strip(line: &str) -> String {
    let mut out = String::new();
    let mut chars = line.chars();
    while let Some(c) = chars.next() {
        if c == '\x1b' {
            if matches!(chars.next(), Some('[')) {
                for c in chars.by_ref() {
                    if c.is_ascii_alphabetic() {
                        break;
                    }
                }
            }
        } else {
            out.push(c);
        }
    }
    out
}

fn strip_all(rows: &[String]) -> Vec<String> {
    rows.iter().map(|r| strip(r)).collect()
}

fn args(v: &[&str]) -> Vec<String> {
    v.iter().map(|s| s.to_string()).collect()
}

/// Global options that know `-v` only.
#[derive(Debug)]
struct Verbose {
    count: usize,
}

impl CliOptions for Verbose {
    fn parse_args(args: &[&str]) -> Result<Self, String> {
        let mut count = 0;
        for a in args {
            if *a == "-v" {
                count += 1;
            } else {
                return Err(format!("unknown flag {a}"));
            }
        }
        Ok(Verbose { count })
    }
}

// ── global flags ─────────────────────────────────────────────────────────────

#[test]
fn global_args_stop_at_the_first_non_flag() {
    let (g, rest) = split_global_args(&args(&["-v", "--x", "build", "-q"]));
    assert_eq!(g, args(&["-v", "--x"]));
    assert_eq!(rest, args(&["build", "-q"]));
}

#[test]
fn global_args_all_flags_or_none() {
    let (g, rest) = split_global_args(&args(&["-a", "-b"]));
    assert_eq!(g, args(&["-a", "-b"]));
    assert!(rest.is_empty());
    let (g, rest) = split_global_args(&args(&["run", "-a"]));
    assert!(g.is_empty());
    assert_eq!(rest, args(&["run", "-a"]));
}

#[test]
fn parse_global_flags_hands_back_the_rest() {
    match parse_global_flags::<Verbose>(&args(&["-v", "-v", "build", "-v"])) {
        Ok((g, rest)) => {
            assert_eq!(g.count, 2);
            assert_eq!(rest, args(&["build", "-v"]));
        }
        Err(e) => panic!("unexpected error {e}"),
    }
    match parse_global_flags::<()>(&args(&["--anything", "x"])) {
        Ok(((), rest)) => assert_eq!(rest, args(&["x"])),
        Err(e) => panic!("unexpected error {e}"),
    }
}

#[test]
fn parse_global_flags_reports_refused_flags() {
    match parse_global_flags::<Verbose>(&args(&["--bad", "build"])) {
        Ok(_) => panic!("expected an error"),
        Err(e) => assert_eq!(e, "invalid global flag: unknown flag --bad"),
    }
}

#[test]
fn cli_error_message() {
    assert_eq!(CliError("boom".to_string()).message(), "boom");
}

// ── rows ─────────────────────────────────────────────────────────────────────

#[test]
fn error_and_warning_rows() {
    assert_eq!(strip_all(&print_error("boom")), vec!["", "✘  boom", ""]);
    assert_eq!(strip_all(&print_warning("careful")), vec!["", "⚠  careful", ""]);
}

#[test]
fn version_badge_row() {
    let (badge, _) = theme_styles("blue");
    let rows = print_version("tool", "1.2.3", badge);
    assert_eq!(strip_all(&rows), vec!["", "   tool   v1.2.3", ""]);
    assert!(rows[1].contains("\x1b[44m"));
}

#[test]
fn missing_args_rows() {
    assert_eq!(
        strip_all(&print_missing_args("tool", "About", "Tag")),
        vec!["", "✘  missing required arguments", "│  tool <INPUT> <OUTPUT>", "➜  run `tool --help` for usage", ""]
    );
}

#[test]
fn unknown_subcommand_suggests_a_close_command() {
    assert_eq!(
        strip_all(&print_unknown_subcommand("tool", "buidl", &["build", "test"])),
        vec![
            "",
            "✘  unknown command: `buidl`",
            "│  did you mean `build`?",
            "➜  run `tool --help` to see available commands",
            "",
        ]
    );
}

#[test]
fn unknown_subcommand_without_close_command() {
    assert_eq!(
        strip_all(&print_unknown_subcommand("tool", "zzzzzz", &["build", "test"])),
        vec!["", "✘  unknown command: `zzzzzz`", "➜  run `tool --help` to see available commands", ""]
    );
}

#[test]
fn missing_subcommand_lists_the_commands() {
    assert_eq!(
        strip_all(&print_missing_subcommand("tool", &["build", "test"])),
        vec!["", "✘  missing command", "│  available: build, test", "➜  run `tool --help` for usage", ""]
    );
}

#[test]
fn subcommand_help_rows() {
    assert_eq!(strip_all(&print_sub_usage("tool", "build")), vec!["", "◆ tool build — subcommand options"]);
    assert_eq!(
        strip_all(&print_unit_help("tool", "init", &[])),
        vec!["", "◆ tool init — no options", "│  usage: tool init", ""]
    );
}

// ── glob and suggestions ─────────────────────────────────────────────────────

#[test]
fn glob_match_documented_examples() {
    assert!(glob_match("*.csv", "data.csv"));
    assert!(glob_match("file_?.txt", "file_1.txt"));
    assert!(!glob_match("*.json", "data.csv"));
}

#[test]
fn glob_match_classes_and_edges() {
    assert!(glob_match("[abc].txt", "b.txt"));
    assert!(!glob_match("[abc].txt", "d.txt"));
    assert!(!glob_match("a?c", "ac"));
    assert!(glob_match("*", ""));
    assert!(glob_match("a*b*c", "a123b456c"));
    assert!(!glob_match("", "x"));
}

#[test]
fn glob_is_defined_marks_unclosed_classes() {
    assert!(glob_is_defined("*.csv", "data.csv"));
    assert!(glob_is_defined("[abc].txt", "d.txt"));
    assert!(!glob_is_defined("[ab", "a"));
    assert!(glob_is_defined("[ab", "c"));
    assert!(glob_is_defined("[ab", ""));
    assert!(!glob_is_defined("x*[a", "xya"));
    assert!(glob_is_defined("x*[a", "yya"));
    assert!(!glob_match("[ab", "c"));
}

#[test]
fn edit_distance_values() {
    assert_eq!(edit_distance("kitten", "sitting"), 3);
    assert_eq!(edit_distance("", "abc"), 3);
    assert_eq!(edit_distance("héllo", "hello"), 1);
    assert_eq!(edit_distance("same", "same"), 0);
    assert_eq!(edit_distance("ab", "ba"), edit_distance("ba", "ab"));
}

#[test]
fn did_you_mean_picks_the_closest_earliest() {
    assert_eq!(did_you_mean("tset", &["test", "build"]), Some("test"));
    assert_eq!(did_you_mean("ab", &["ac", "ad"]), Some("ac"));
    assert_eq!(did_you_mean("abd", &["xyz", "abc"]), Some("abc"));
    assert_eq!(did_you_mean("zzzzz", &["test"]), None);
    assert_eq!(did_you_mean("x", &[]), None);
}

//! Option parsing from a table, subcommand dispatch, value checks and the
//! option help sections.

use cli_ui::argcheck::{arg_warning, check_arg, ArgCheck, FsFacts};
use cli_ui::arghelp::{options_help, options_usage_line};
use cli_ui::args::{parse_arg_table, ArgSpec, ArgValue, DefaultVal};
use cli_ui::dispatch::{dispatch_command, CmdSpec, Dispatch};
use cli_ui::help::HelpEntry;

fn field(name: &str) -> ArgSpec {
    ArgSpec {
        field: name.to_string(),
        short: None,
        long: None,
        positional: false,
        switch: false,
        negatable: false,
        repeated: false,
        optional: false,
        skip: false,
        default: None,
        conflicts_with: Vec::new(),
        requires: Vec::new(),
        requires_any: Vec::new(),
        required_unless: Vec::new(),
        required_unless_any: Vec::new(),
        group: None,
        section: None,
        hint: String::new(),
        doc: String::new(),
    }
}

fn flag(name: &str, short: Option<char>, long: &str) -> ArgSpec {
    ArgSpec { short, long: Some(long.to_string()), ..field(name) }
}

fn strings(v: &[&str]) -> Vec<String> {
    v.iter().map(|s| s.to_string()).collect()
}

fn given(v: &[&str]) -> ArgValue {
    ArgValue::Given(strings(v))
}

/// The table of the crate's documented example: two positional paths,
/// `-q/--quality`, `--format`, `-j/--jobs` and a negatable `--verbose`.
fn image_opts() -> Vec<ArgSpec> {
    vec![
        ArgSpec { positional: true, doc: "Image to compress".to_string(), ..field("input") },
        ArgSpec { positional: true, ..field("output") },
        ArgSpec {
            section: Some("Quality".to_string()),
            default: Some(DefaultVal::Lit("85".to_string())),
            hint: "N".to_string(),
            ..flag("quality", Some('q'), "quality")
        },
        ArgSpec {
            section: Some("Quality".to_string()),
            default: Some(DefaultVal::Lit("webp".to_string())),
            hint: "STR".to_string(),
            doc: "Output format".to_string(),
            ..flag("format", None, "format")
        },
        ArgSpec {
            section: Some("Performance".to_string()),
            default: Some(DefaultVal::Env("JOBS".to_string(), Some("4".to_string()))),
            hint: "N".to_string(),
            ..flag("jobs", Some('j'), "jobs")
        },
        ArgSpec { switch: true, negatable: true, ..flag("verbose", Some('v'), "verbose") },
    ]
}

fn parse(specs: &Vec<ArgSpec>, args: &[&str]) -> Result<Vec<ArgValue>, String> {
    parse_arg_table(specs, &strings(args))
}

#[test]
fn short_long_and_equals_forms_set_values() {
    let r = parse(&image_opts(), &["in.png", "out", "-q", "90", "--format=png", "--jobs", "8"]).unwrap();
    assert_eq!(
        r,
        vec![given(&["in.png"]), given(&["out"]), given(&["90"]), given(&["png"]), given(&["8"]), ArgValue::Switch(false)]
    );
}

#[test]
fn missing_values_fall_back_to_defaults() {
    let r = parse(&image_opts(), &["in.png", "out"]).unwrap();
    assert_eq!(r[2], ArgValue::NotGiven);
    assert_eq!(r[3], ArgValue::NotGiven);
    let bare = parse(&image_opts(), &["in.png", "out", "--format", "-v"]).unwrap();
    assert_eq!(bare[3], ArgValue::NotGiven);
    assert_eq!(bare[5], ArgValue::Switch(true));
    let last = parse(&image_opts(), &["a", "b", "-q", "1", "--quality=2"]).unwrap();
    assert_eq!(last[2], given(&["2"]));
}

#[test]
fn switches_take_no_value() {
    let r = parse(&image_opts(), &["--verbose", "in.png", "out"]).unwrap();
    assert_eq!(r[0], given(&["in.png"]));
    assert_eq!(r[1], given(&["out"]));
    assert_eq!(r[5], ArgValue::Switch(true));
    let off = parse(&image_opts(), &["a", "b", "--verbose", "--no-verbose"]).unwrap();
    assert_eq!(off[5], ArgValue::Switch(false));
    assert_eq!(parse(&image_opts(), &["a", "b", "--verbose=yes"]), Err("flag `--verbose` takes no value".to_string()));
}

#[test]
fn switch_defaults() {
    let on = vec![ArgSpec { switch: true, default: Some(DefaultVal::Lit("true".to_string())), ..flag("color", None, "color") }];
    assert_eq!(parse(&on, &[]).unwrap(), vec![ArgValue::Switch(true)]);
    let off = vec![ArgSpec { switch: true, default: Some(DefaultVal::Lit("false".to_string())), ..flag("color", None, "color") }];
    assert_eq!(parse(&off, &[]).unwrap(), vec![ArgValue::Switch(false)]);
}

#[test]
fn missing_positional_and_unknown_flags_are_refused() {
    assert_eq!(parse(&image_opts(), &["in.png"]), Err("missing required argument <output>".to_string()));
    assert_eq!(parse(&image_opts(), &["in.png", "out", "--bogus"]), Err("unknown flag: `--bogus`".to_string()));
    assert_eq!(parse(&image_opts(), &["--nope=1"]), Err("unknown flag: `--nope`".to_string()));
    let opt = vec![ArgSpec { positional: true, optional: true, ..field("file") }];
    assert_eq!(parse(&opt, &[]).unwrap(), vec![ArgValue::NotGiven]);
    let unless = vec![
        ArgSpec { positional: true, required_unless: strings(&["stdin"]), ..field("file") },
        ArgSpec { switch: true, ..flag("stdin", None, "stdin") },
    ];
    assert_eq!(parse(&unless, &["--stdin"]).unwrap(), vec![ArgValue::NotGiven, ArgValue::Switch(true)]);
}

#[test]
fn repeated_fields_collect_every_value() {
    let specs = vec![ArgSpec { repeated: true, ..flag("tag", Some('t'), "tag") }];
    assert_eq!(parse(&specs, &["--tag", "a", "-t", "b", "--tag=c"]).unwrap(), vec![given(&["a", "b", "c"])]);
    assert_eq!(parse(&specs, &[]).unwrap(), vec![given(&[])]);
}

#[test]
fn constraints_between_options() {
    let specs = vec![
        ArgSpec { switch: true, conflicts_with: strings(&["csv"]), ..flag("json", None, "json") },
        ArgSpec { switch: true, ..flag("csv", None, "csv") },
        ArgSpec { switch: true, requires: strings(&["key"]), ..flag("sign", None, "sign") },
        flag("key", None, "key"),
        ArgSpec { switch: true, requires_any: strings(&["to_file", "to_dir"]), ..flag("out", None, "out") },
        flag("to_file", None, "to-file"),
        flag("to_dir", None, "to-dir"),
    ];
    assert_eq!(
        parse(&specs, &["--json", "--csv"]),
        Err("conflicting flags: --json and --csv\n│  --json cannot be used together with --csv".to_string())
    );
    assert_eq!(
        parse(&specs, &["--sign"]),
        Err("missing required flag: --key\n│  --sign requires --key to be specified".to_string())
    );
    assert!(parse(&specs, &["--sign", "--key", "k"]).is_ok());
    assert_eq!(
        parse(&specs, &["--out"]),
        Err("missing required flag for --out: at least one of [\"--to-file\", \"--to-dir\"] must be specified".to_string())
    );
    assert!(parse(&specs, &["--out", "--to-dir", "d"]).is_ok());
}

#[test]
fn required_unless_and_groups() {
    let specs = vec![
        ArgSpec { required_unless: strings(&["config"]), ..flag("url", None, "url") },
        flag("config", None, "config"),
        ArgSpec { switch: true, group: Some("fmt".to_string()), ..flag("a", None, "a") },
        ArgSpec { switch: true, group: Some("fmt".to_string()), ..flag("b", None, "b") },
    ];
    assert_eq!(
        parse(&specs, &[]),
        Err("missing required flag: --url\n│  --url is required unless --config is specified".to_string())
    );
    assert!(parse(&specs, &["--config", "c"]).is_ok());
    assert_eq!(
        parse(&specs, &["--url", "u", "--a", "--b"]),
        Err("conflicting flags in group `fmt`: a, b cannot be used together".to_string())
    );
    let any = vec![ArgSpec { required_unless_any: strings(&["x", "y"]), ..flag("z", None, "z") }, flag("x", None, "x")];
    assert_eq!(
        parse(&any, &[]),
        Err("missing required flag: --z\n│  required unless one of [\"--x\", \"--y\"] is given".to_string())
    );
    assert!(parse(&any, &["--x", "1"]).is_ok());
}

// ── dispatch ─────────────────────────────────────────────────────────────────

fn cmds() -> Vec<CmdSpec> {
    vec![
        CmdSpec { name: "download".to_string(), aliases: strings(&["dl"]), about: "Download a file".to_string(), has_options: true },
        CmdSpec { name: "status".to_string(), aliases: Vec::new(), about: "Show status".to_string(), has_options: false },
    ]
}

fn dispatch(args: &[&str]) -> Dispatch {
    dispatch_command(&cmds(), &strings(args), true)
}

#[test]
fn dispatch_meta_flags() {
    assert_eq!(dispatch(&["--help"]), Dispatch::RootHelp);
    assert_eq!(dispatch(&["-h", "download"]), Dispatch::RootHelp);
    assert_eq!(dispatch(&["download", "--help"]), Dispatch::SubHelp(0));
    assert_eq!(dispatch(&["status", "-h"]), Dispatch::UnitHelp(1));
    assert_eq!(dispatch(&["status", "-V"]), Dispatch::Version);
    assert_eq!(dispatch(&["--completions", "zsh"]), Dispatch::Completions("zsh".to_string()));
    assert_eq!(dispatch(&["--completions"]), Dispatch::Completions("bash".to_string()));
}

#[test]
fn dispatch_completion_protocol() {
    assert_eq!(dispatch(&["--complete"]), Dispatch::CompleteNames(strings(&["download", "dl", "status"])));
    assert_eq!(dispatch(&["--complete", ""]), Dispatch::CompleteNames(strings(&["download", "dl", "status"])));
    assert_eq!(dispatch(&["--complete", "-x"]), Dispatch::CompleteNames(Vec::new()));
    assert_eq!(dispatch(&["--complete", "dl"]), Dispatch::CompleteIn(0, "complete: ".to_string()));
    assert_eq!(dispatch(&["--complete", "dl", "--out", "x"]), Dispatch::CompleteIn(0, "complete:--out x".to_string()));
    assert_eq!(dispatch(&["--complete", "status"]), Dispatch::CompleteNone);
}

#[test]
fn dispatch_commands() {
    assert_eq!(dispatch(&[]), Dispatch::MissingCommand);
    assert_eq!(dispatch(&["-v"]), Dispatch::MissingCommand);
    assert_eq!(dispatch(&["help"]), Dispatch::RootHelp);
    assert_eq!(dispatch(&["help", "status"]), Dispatch::UnitHelp(1));
    assert_eq!(dispatch(&["help", "dl"]), Dispatch::SubHelp(0));
    assert_eq!(dispatch(&["help", "nope"]), Dispatch::UnknownCommand("nope".to_string()));
    assert_eq!(dispatch(&["stauts"]), Dispatch::UnknownCommand("stauts".to_string()));
    assert_eq!(dispatch(&["status", "--x"]), Dispatch::UnknownFlag("--x".to_string()));
    assert_eq!(
        dispatch(&["-v", "dl", "url", "--out", "f"]),
        Dispatch::Run(0, strings(&["-v"]), strings(&["url", "--out", "f"]))
    );
    assert_eq!(
        dispatch_command(&cmds(), &strings(&["-v", "dl", "x"]), false),
        Dispatch::Run(0, Vec::new(), strings(&["-v", "x"]))
    );
    assert_eq!(dispatch(&["-v", "status"]), Dispatch::Run(1, strings(&["-v"]), Vec::new()));
}

// ── checks ───────────────────────────────────────────────────────────────────

fn facts(exists: bool, is_file: bool, is_dir: bool) -> FsFacts {
    FsFacts { exists, is_file, is_dir, env_value: None }
}

#[test]
fn range_and_list_checks() {
    let fs = facts(false, false, false);
    let range = ArgCheck::Range(Some(1), Some(100));
    assert!(check_arg(&range, "quality", "85", &fs).is_ok());
    assert_eq!(check_arg(&range, "quality", "0", &fs), Err("invalid value for `quality`: 0 is below minimum 1".to_string()));
    assert_eq!(check_arg(&range, "quality", "101", &fs), Err("invalid value for `quality`: 101 exceeds maximum 100".to_string()));
    assert_eq!(check_arg(&range, "quality", "hi", &fs), Err("invalid value for `quality`: \"hi\"".to_string()));
    let one = ArgCheck::OneOf(strings(&["webp", "png"]));
    assert!(check_arg(&one, "format", "png", &fs).is_ok());
    assert_eq!(
        check_arg(&one, "format", "gif", &fs),
        Err("invalid value for `format`: \"gif\"\n│  expected one of: webp, png".to_string())
    );
}

#[test]
fn length_glob_and_env_checks() {
    let fs = FsFacts { env_value: Some("prod".to_string()), ..facts(false, false, false) };
    assert_eq!(
        check_arg(&ArgCheck::MinLen(3), "name", "ab", &fs),
        Err("invalid value for `name`: too short (2 chars, minimum 3)".to_string())
    );
    assert_eq!(
        check_arg(&ArgCheck::MaxLen(2), "name", "é!", &fs),
        Err("invalid value for `name`: too long (3 chars, maximum 2)".to_string())
    );
    let glob = ArgCheck::Glob("*.csv".to_string());
    assert!(check_arg(&glob, "input", "a.csv", &fs).is_ok());
    assert_eq!(
        check_arg(&glob, "input", "a.txt", &fs),
        Err("invalid value for `input`: \"a.txt\" does not match pattern `*.csv`".to_string())
    );
    let env = ArgCheck::Env("STAGE".to_string(), Some("dev".to_string()));
    assert!(check_arg(&env, "stage", "prod", &fs).is_ok());
    assert_eq!(
        check_arg(&env, "stage", "dev", &fs),
        Err("invalid value for `stage`: \"dev\" does not match $STAGE (\"prod\")".to_string())
    );
    assert!(check_arg(&env, "stage", "dev", &facts(false, false, false)).is_ok());
}

#[test]
fn path_checks_and_warnings() {
    assert_eq!(
        check_arg(&ArgCheck::Exists, "input", "nope.png", &facts(false, false, false)),
        Err("path does not exist: \"nope.png\"".to_string())
    );
    assert_eq!(check_arg(&ArgCheck::IsDir, "out", "f", &facts(true, true, false)), Err("not a directory: \"f\"".to_string()));
    assert!(check_arg(&ArgCheck::IsFile, "in", "f", &facts(true, true, false)).is_ok());
    let ext = ArgCheck::Ext(strings(&["csv", "json"]));
    assert!(check_arg(&ext, "input", "data/x.CSV", &facts(true, true, false)).is_ok());
    assert_eq!(
        check_arg(&ext, "input", "x.txt", &facts(true, true, false)),
        Err("invalid file extension for `input`: \"x.txt\" — expected one of: csv, json".to_string())
    );
    assert_eq!(
        arg_warning(&ArgCheck::Exists, "out", &facts(true, false, true)),
        Some("warning for `out`: path already exists — may be overwritten".to_string())
    );
    assert_eq!(arg_warning(&ArgCheck::IsFile, "out", &facts(true, false, true)), None);
}

// ── help ─────────────────────────────────────────────────────────────────────

fn pairs(es: &[HelpEntry]) -> Vec<(String, String)> {
    es.iter()
        .map(|e| match e {
            HelpEntry::Pair { key, desc } => (key.clone(), desc.clone()),
            HelpEntry::Detail(t) => (t.clone(), String::new()),
        })
        .collect()
}

fn pair(k: &str, d: &str) -> (String, String) {
    (k.to_string(), d.to_string())
}

#[test]
fn option_help_sections() {
    let secs = options_help(&image_opts());
    let titles: Vec<&str> = secs.iter().map(|s| s.title.as_str()).collect();
    assert_eq!(titles, vec!["Arguments", "Quality", "Performance", "Meta"]);
    assert_eq!(pairs(&secs[0].entries), vec![pair("<INPUT>", "Image to compress"), pair("<OUTPUT>", "")]);
    assert_eq!(
        pairs(&secs[1].entries),
        vec![pair("-q, --quality", "[default: 85]"), pair("    --format <STR>", "Output format  [default: webp]")]
    );
    assert_eq!(pairs(&secs[2].entries), vec![pair("-j, --jobs", "[default: $JOBS or 4]")]);
    assert_eq!(secs[3].entries.len(), 3);
    assert_eq!(options_usage_line("imgopt", &image_opts()), "imgopt <INPUT> <OUTPUT> [OPTIONS]");
}

#[test]
fn option_help_labels() {
    let specs = vec![
        ArgSpec { section: Some("Output".to_string()), switch: true, negatable: true, ..flag("color", None, "color") },
        ArgSpec { section: Some("Output".to_string()), repeated: true, ..flag("tag", Some('t'), "tag") },
        ArgSpec { section: Some("Output".to_string()), default: Some(DefaultVal::Auto), ..flag("w", Some('w'), "width") },
    ];
    let secs = options_help(&specs);
    assert_eq!(
        pairs(&secs[1].entries),
        vec![
            pair("    --color / --no-color", ""),
            pair("-t, --tag <N>...", ""),
            pair("-w, --width", "[default: auto]"),
        ]
    );
}

#[test]
fn short_flag_reads_as_long_flag() {
    let a = parse(&image_opts(), &["a", "b", "-q", "7", "-v", "-j", "2"]);
    let b = parse(&image_opts(), &["a", "b", "--quality", "7", "--verbose", "--jobs", "2"]);
    assert_eq!(a, b);
    assert_eq!(a.unwrap()[2], given(&["7"]));
}

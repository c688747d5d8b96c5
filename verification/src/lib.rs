//! Styled CLI building blocks: option parsing from a table of arguments,
//! subcommand dispatch, value checks, help and summary layout, completion
//! scripts and candidates, download progress lines, and clack-style
//! interactive prompt state machines.

pub mod argcheck;
pub mod arghelp;
pub mod argcomplete;
pub mod args;
pub mod complete;
pub mod cmdcomplete;
pub mod dispatch;
pub mod help;
pub mod matching;
pub mod progress;
pub mod prompt;
pub mod report;
pub mod strutil;
pub mod styles;
pub mod summary;

pub use matching::{glob_is_defined, glob_match};
pub use progress::Progress;
pub use summary::Summary;

use vstd::prelude::*;
use crate::matching::{did_you_mean, edit_dist};
use crate::strutil::{has_prefix, joined, owned};
use crate::styles::{
    bold, dim, err, paint, painted, spec_bold, spec_dim, spec_err, spec_white, spec_yellow,
    theme_table, white, yellow, ARROW, BAR, CROSS, DIAMOND,
};

verus! {

broadcast use vstd::string::group_string_axioms;

// ── errors ───────────────────────────────────────────────────────────────────

/// Error returned by command parsing.
#[derive(Debug)]
pub struct CliError(pub String);

impl CliError {
    /// The error's message.
    pub fn message(&self) -> (r: String)
        ensures
            r@ == self.0@,
    {
        self.0.clone()
    }
}

/// `Result<T>` alias used throughout the crate.
pub type Result<T> = core::result::Result<T, CliError>;

// ── traits implemented by generated code ────────────────────────────────────

/// Implemented by option structs: parse the option arguments. An
/// implementation describes its fields in a table of
/// [`ArgSpec`](crate::args::ArgSpec)s and parses with
/// [`parse_arg_table`](crate::args::parse_arg_table).
pub trait CliOptions: Sized {
    fn parse_args(args: &[&str]) -> core::result::Result<Self, String>;
}

impl CliOptions for () {
    fn parse_args(args: &[&str]) -> (r: core::result::Result<Self, String>) {
        Ok(())
    }
}

/// Implemented by subcommand enums.
pub trait CliCommand: Sized {
    /// Type of global options; `()` without global options.
    type Global: 'static;

    /// Parse the subcommand and the global options of this process.
    fn parse() -> Result<Self>;

    /// The parsed global options.
    fn global() -> &'static Self::Global;

    /// Print styled help.
    fn help();
}

/// Uniform dispatch for both option structs and nested subcommand enums.
pub trait ParseInner: Sized {
    fn parse_inner(args: &[&str]) -> Result<Self>;
}

/// Print help for a specific subcommand type.
pub trait PrintHelp {
    fn print_help();
}

/// Nested completion support.
pub trait NestedCompletions {
    fn print_completions(shell: &str);
}

// ── global flags ────────────────────────────────────────────────────────────

/// The index of the first argument that does not start with `-` (the
/// subcommand), or the number of arguments.
pub open spec fn first_non_flag(args: Seq<Seq<char>>) -> int
    decreases args.len(),
{
    if args.len() == 0 {
        0
    } else if !has_prefix(args[0], seq!['-']) {
        0
    } else {
        1 + first_non_flag(args.drop_first())
    }
}

/// The global flags are the leading arguments that start with `-`: each
/// of them does, and the first argument after them does not.
pub proof fn lemma_first_non_flag(args: Seq<Seq<char>>)
    ensures
        0 <= first_non_flag(args) <= args.len(),
        forall|k: int| 0 <= k < first_non_flag(args) ==> has_prefix(#[trigger] args[k], seq!['-']),
        first_non_flag(args) < args.len() ==> !has_prefix(args[first_non_flag(args)], seq!['-']),
    decreases args.len(),
{
    if args.len() > 0 && has_prefix(args[0], seq!['-']) {
        lemma_first_non_flag(args.drop_first());
        assert forall|k: int| 0 <= k < first_non_flag(args) implies has_prefix(
            #[trigger] args[k],
            seq!['-'],
        ) by {
            if k > 0 {
                assert(args[k] == args.drop_first()[k - 1]);
            }
        }
    }
}

/// Splitting the arguments loses nothing: the global flags followed by the
/// rest are the arguments.
pub proof fn law_split_keeps_all(args: Seq<Seq<char>>)
    ensures
        args.take(first_non_flag(args)) + args.skip(first_non_flag(args)) == args,
{
    lemma_first_non_flag(args);
    assert(args.take(first_non_flag(args)) + args.skip(first_non_flag(args)) =~= args);
}

/// Split the arguments into the global flags (those before the first
/// argument that is not a flag) and the rest.
pub fn split_global_args(args: &Vec<String>) -> (r: (Vec<String>, Vec<String>))
    ensures
        ({
            let a = args@.map_values(|s: String| s@);
            let k = first_non_flag(a);
            &&& r.0@.map_values(|s: String| s@) == a.take(k)
            &&& r.1@.map_values(|s: String| s@) == a.skip(k)
        }),
{
    let ghost a = args@.map_values(|s: String| s@);
    let mut dash = String::new();
    crate::strutil::push_char(&mut dash, '-');
    proof {
        assert(dash@ =~= seq!['-']);
        lemma_first_non_flag(a);
    }
    let mut split: usize = 0;
    assert(a.skip(0) =~= a);
    while split < args.len() && crate::strutil::starts_with_exec(args[split].as_str(), dash.as_str())
        invariant
            a == args@.map_values(|s: String| s@),
            dash@ == seq!['-'],
            0 <= split <= a.len(),
            first_non_flag(a) == split + first_non_flag(a.skip(split as int)),
        decreases a.len() - split,
    {
        proof {
            assert(a[split as int] == args@[split as int]@);
            assert(a.skip(split as int)[0] == a[split as int]);
            assert(a.skip(split as int).drop_first() =~= a.skip(split + 1));
        }
        split += 1;
    }
    proof {
        if split < a.len() {
            assert(a[split as int] == args@[split as int]@);
            assert(a.skip(split as int)[0] == a[split as int]);
        } else {
            assert(a.skip(split as int) =~= Seq::<Seq<char>>::empty());
        }
    }
    let mut global: Vec<String> = Vec::new();
    let mut rest: Vec<String> = Vec::new();
    let mut i: usize = 0;
    while i < args.len()
        invariant
            a == args@.map_values(|s: String| s@),
            split == first_non_flag(a),
            0 <= split <= a.len(),
            0 <= i <= a.len(),
            global@.map_values(|s: String| s@) == a.take(if i < split { i as int } else { split as int }),
            rest@.map_values(|s: String| s@) == a.subrange(split as int, if i < split { split as int } else { i as int }),
        decreases a.len() - i,
    {
        let s = args[i].clone();
        let ghost sv = s@;
        proof {
            assert(sv == a[i as int]);
        }
        if i < split {
            let ghost prev = global@;
            global.push(s);
            proof {
                assert(global@.map_values(|s: String| s@) =~= prev.map_values(|s: String| s@).push(sv));
                assert(a.take(i + 1) =~= a.take(i as int).push(sv));
            }
        } else {
            let ghost prev = rest@;
            rest.push(s);
            proof {
                assert(rest@.map_values(|s: String| s@) =~= prev.map_values(|s: String| s@).push(sv));
                assert(a.subrange(split as int, i + 1) =~= a.subrange(split as int, i as int).push(sv));
            }
        }
        i += 1;
    }
    proof {
        assert(a.subrange(split as int, a.len() as int) =~= a.skip(split as int));
    }
    (global, rest)
}

/// The message for global flags that the global options refuse.
pub open spec fn invalid_global_msg(e: Seq<char>) -> Seq<char> {
    "invalid global flag: "@ + e
}

/// Parse the global flags (the arguments before the subcommand) with
/// `G::parse_args` and hand back the rest; a refusal becomes the message
/// `invalid global flag: …`.
pub fn parse_global_flags<G: CliOptions>(args: &Vec<String>) -> (r: core::result::Result<(G, Vec<String>), String>)
    ensures
        match r {
            Ok(p) => p.1@.map_values(|s: String| s@) == args@.map_values(|s: String| s@).skip(
                first_non_flag(args@.map_values(|s: String| s@)),
            ),
            Err(m) => exists|e: Seq<char>| m@ == invalid_global_msg(e),
        },
{
    let (global, rest) = split_global_args(args);
    let mut refs: Vec<&str> = Vec::new();
    let mut i: usize = 0;
    while i < global.len()
        invariant
            0 <= i <= global@.len(),
            refs@.len() == i,
            rest@.map_values(|s: String| s@) == args@.map_values(|s: String| s@).skip(
                first_non_flag(args@.map_values(|s: String| s@)),
            ),
        decreases global@.len() - i,
    {
        refs.push(global[i].as_str());
        i += 1;
    }
    match G::parse_args(refs.as_slice()) {
        Ok(g) => Ok((g, rest)),
        Err(e) => {
            let mut m = owned("invalid global flag: ");
            proof {
                reveal_strlit("invalid global flag: ");
            }
            m.append(e.as_str());
            assert(m@ == invalid_global_msg(e@));
            Err(m)
        },
    }
}

// ── message rows ─────────────────────────────────────────────────────────────

/// The first row of an error: a red `✘` and the message in bold.
pub open spec fn error_head(msg: Seq<char>) -> Seq<char> {
    painted(spec_err(), CROSS@) + "  "@ + painted(spec_bold(), msg)
}

/// A `│` row in white.
pub open spec fn bar_row(text: Seq<char>) -> Seq<char> {
    painted(spec_dim(), BAR@) + "  "@ + painted(spec_white(), text)
}

/// A `➜` row in white.
pub open spec fn arrow_row(text: Seq<char>) -> Seq<char> {
    painted(spec_dim(), ARROW@) + "  "@ + painted(spec_white(), text)
}

fn error_head_exec(msg: &str) -> (r: String)
    ensures
        r@ == error_head(msg@),
{
    let mut out = paint(err(), CROSS);
    out.append("  ");
    let m = paint(bold(), msg);
    out.append(m.as_str());
    out
}

fn bar_row_exec(text: &str) -> (r: String)
    ensures
        r@ == bar_row(text@),
{
    let mut out = paint(dim(), BAR);
    out.append("  ");
    let m = paint(white(), text);
    out.append(m.as_str());
    out
}

fn arrow_row_exec(text: &str) -> (r: String)
    ensures
        r@ == arrow_row(text@),
{
    let mut out = paint(dim(), ARROW);
    out.append("  ");
    let m = paint(white(), text);
    out.append(m.as_str());
    out
}

/// The rows of a version badge: ` name ` in the badge style and `vX`.
pub fn print_version(name: &str, version: &str, badge: crate::styles::Style) -> (r: Vec<String>)
    ensures
        r@.map_values(|s: String| s@) == seq![
            Seq::<char>::empty(),
            "  "@ + painted(badge, " "@ + name@ + " "@) + "  "@ + painted(spec_dim(), "v"@ + version@),
            Seq::<char>::empty(),
        ],
{
    let mut b = owned(" ");
    proof {
        reveal_strlit(" ");
        reveal_strlit("v");
    }
    b.append(name);
    b.append(" ");
    let mut v = owned("v");
    v.append(version);
    let mut row = owned("  ");
    proof {
        reveal_strlit("  ");
    }
    let pb = paint(badge, b.as_str());
    row.append(pb.as_str());
    row.append("  ");
    let pv = paint(dim(), v.as_str());
    row.append(pv.as_str());
    let mut out: Vec<String> = Vec::new();
    out.push(String::new());
    out.push(row);
    out.push(String::new());
    proof {
        assert(out@.map_values(|s: String| s@) =~= seq![
            Seq::<char>::empty(),
            "  "@ + painted(badge, " "@ + name@ + " "@) + "  "@ + painted(spec_dim(), "v"@ + version@),
            Seq::<char>::empty(),
        ]);
    }
    out
}

/// The rows of an error message: a red `✘` and the message in bold,
/// between blank rows.
pub fn print_error(msg: &str) -> (r: Vec<String>)
    ensures
        r@.map_values(|s: String| s@) == seq![Seq::<char>::empty(), error_head(msg@), Seq::<char>::empty()],
{
    let mut out: Vec<String> = Vec::new();
    out.push(String::new());
    out.push(error_head_exec(msg));
    out.push(String::new());
    proof {
        assert(out@.map_values(|s: String| s@) =~= seq![
            Seq::<char>::empty(),
            error_head(msg@),
            Seq::<char>::empty(),
        ]);
    }
    out
}

/// The rows of a warning: a yellow `⚠` and the message in yellow, between
/// blank rows.
pub fn print_warning(msg: &str) -> (r: Vec<String>)
    ensures
        r@.map_values(|s: String| s@) == seq![
            Seq::<char>::empty(),
            painted(spec_yellow(), "⚠"@) + "  "@ + painted(spec_yellow(), msg@),
            Seq::<char>::empty(),
        ],
{
    let mut row = paint(yellow(), "⚠");
    row.append("  ");
    let m = paint(yellow(), msg);
    row.append(m.as_str());
    let mut out: Vec<String> = Vec::new();
    out.push(String::new());
    out.push(row);
    out.push(String::new());
    proof {
        assert(out@.map_values(|s: String| s@) =~= seq![
            Seq::<char>::empty(),
            painted(spec_yellow(), "⚠"@) + "  "@ + painted(spec_yellow(), msg@),
            Seq::<char>::empty(),
        ]);
    }
    out
}

/// The rows of the "missing required arguments" error: the usage shape
/// and where to find help.
pub fn print_missing_args(name: &str, about: &str, tagline: &str) -> (r: Vec<String>)
    ensures
        r@.map_values(|s: String| s@) == seq![
            Seq::<char>::empty(),
            error_head("missing required arguments"@),
            bar_row(name@ + " <INPUT> <OUTPUT>"@),
            arrow_row("run `"@ + name@ + " --help` for usage"@),
            Seq::<char>::empty(),
        ],
{
    let mut usage = owned(name);
    usage.append(" <INPUT> <OUTPUT>");
    let mut hint = owned("run `");
    proof {
        reveal_strlit("run `");
    }
    hint.append(name);
    hint.append(" --help` for usage");
    let mut out: Vec<String> = Vec::new();
    out.push(String::new());
    out.push(error_head_exec("missing required arguments"));
    out.push(bar_row_exec(usage.as_str()));
    out.push(arrow_row_exec(hint.as_str()));
    out.push(String::new());
    proof {
        assert(out@.map_values(|s: String| s@) =~= seq![
            Seq::<char>::empty(),
            error_head("missing required arguments"@),
            bar_row(name@ + " <INPUT> <OUTPUT>"@),
            arrow_row("run `"@ + name@ + " --help` for usage"@),
            Seq::<char>::empty(),
        ]);
    }
    out
}

/// The rows of the "unknown command" error: the command, a suggestion when
/// a known command is within edit distance 2 (see
/// [`did_you_mean`](crate::matching::did_you_mean)), and where to find
/// the list.
pub fn print_unknown_subcommand(app: &str, cmd: &str, known: &[&str]) -> (r: Vec<String>)
    ensures
        ({
            let head = seq![
                Seq::<char>::empty(),
                error_head("unknown command: `"@ + cmd@ + "`"@),
            ];
            let tail = seq![
                arrow_row("run `"@ + app@ + " --help` to see available commands"@),
                Seq::<char>::empty(),
            ];
            let rows = r@.map_values(|s: String| s@);
            if forall|k: int| 0 <= k < known@.len() ==> edit_dist(cmd@, known@[k]@) > 2 {
                rows == head + tail
            } else {
                exists|k: int|
                    #![trigger known@[k]]
                    0 <= k < known@.len() && edit_dist(cmd@, known@[k]@) <= 2 && (forall|j: int|
                        0 <= j < known@.len() && edit_dist(cmd@, known@[j]@) <= 2 ==> edit_dist(
                            cmd@,
                            known@[k]@,
                        ) <= edit_dist(cmd@, known@[j]@)) && (forall|j: int|
                        0 <= j < k && edit_dist(cmd@, known@[j]@) <= 2 ==> edit_dist(
                            cmd@,
                            known@[k]@,
                        ) < edit_dist(cmd@, known@[j]@)) && rows == head + seq![
                        bar_row("did you mean `"@ + known@[k]@ + "`?"@),
                    ] + tail
            }
        }),
{
    let mut h = owned("unknown command: `");
    proof {
        reveal_strlit("unknown command: `");
    }
    h.append(cmd);
    h.append("`");
    let mut out: Vec<String> = Vec::new();
    out.push(String::new());
    out.push(error_head_exec(h.as_str()));
    let ghost head = out@.map_values(|s: String| s@);
    match did_you_mean(cmd, known) {
        Some(s) => {
            let mut t = owned("did you mean `");
            proof {
                reveal_strlit("did you mean `");
            }
            t.append(s);
            t.append("`?");
            out.push(bar_row_exec(t.as_str()));
        },
        None => {},
    }
    let ghost mid = out@.map_values(|s: String| s@);
    let mut a = owned("run `");
    proof {
        reveal_strlit("run `");
    }
    a.append(app);
    a.append(" --help` to see available commands");
    out.push(arrow_row_exec(a.as_str()));
    out.push(String::new());
    proof {
        assert(out@.map_values(|s: String| s@) =~= mid + seq![
            arrow_row("run `"@ + app@ + " --help` to see available commands"@),
            Seq::<char>::empty(),
        ]);
    }
    out
}

/// The rows of the "missing command" error: the known commands and where
/// to find help.
pub fn print_missing_subcommand(app: &str, known: &[&str]) -> (r: Vec<String>)
    ensures
        r@.map_values(|s: String| s@) == seq![
            Seq::<char>::empty(),
            error_head("missing command"@),
            bar_row("available: "@ + joined(known@.map_values(|k: &str| k@), ", "@)),
            arrow_row("run `"@ + app@ + " --help` for usage"@),
            Seq::<char>::empty(),
        ],
{
    let mut names: Vec<String> = Vec::new();
    let mut i: usize = 0;
    while i < known.len()
        invariant
            0 <= i <= known@.len(),
            names@.map_values(|s: String| s@) == known@.take(i as int).map_values(|k: &str| k@),
        decreases known@.len() - i,
    {
        let n = owned(known[i]);
        let ghost prev = names@;
        names.push(n);
        proof {
            assert(names@.map_values(|s: String| s@) =~= prev.map_values(|s: String| s@).push(n@));
            assert(known@.take(i + 1).map_values(|k: &str| k@) =~= known@.take(i as int).map_values(
                |k: &str| k@,
            ).push(known@[i as int]@));
        }
        i += 1;
    }
    proof {
        assert(known@.take(known@.len() as int) =~= known@);
    }
    let mut av = owned("available: ");
    proof {
        reveal_strlit("available: ");
        reveal_strlit(", ");
    }
    let list = crate::strutil::join(&names, ", ");
    av.append(list.as_str());
    let mut hint = owned("run `");
    proof {
        reveal_strlit("run `");
    }
    hint.append(app);
    hint.append(" --help` for usage");
    let mut out: Vec<String> = Vec::new();
    out.push(String::new());
    out.push(error_head_exec("missing command"));
    out.push(bar_row_exec(av.as_str()));
    out.push(arrow_row_exec(hint.as_str()));
    out.push(String::new());
    proof {
        assert(out@.map_values(|s: String| s@) =~= seq![
            Seq::<char>::empty(),
            error_head("missing command"@),
            bar_row("available: "@ + joined(known@.map_values(|k: &str| k@), ", "@)),
            arrow_row("run `"@ + app@ + " --help` for usage"@),
            Seq::<char>::empty(),
        ]);
    }
    out
}

/// The title row of a subcommand's help: `◆ app cmd` and a dimmed note.
pub open spec fn sub_title(app: Seq<char>, cmd: Seq<char>, note: Seq<char>) -> Seq<char> {
    painted(theme_table("cyan"@).1, DIAMOND@) + " "@ + painted(spec_bold(), app + " "@ + cmd) + " "@
        + painted(spec_dim(), note)
}

fn sub_title_exec(app: &str, cmd: &str, note: &str) -> (r: String)
    ensures
        r@ == sub_title(app@, cmd@, note@),
{
    let (_, accent) = crate::styles::theme_styles("cyan");
    let mut out = paint(accent, DIAMOND);
    out.append(" ");
    let mut t = owned(app);
    t.append(" ");
    t.append(cmd);
    let b = paint(bold(), t.as_str());
    out.append(b.as_str());
    out.append(" ");
    let n = paint(dim(), note);
    out.append(n.as_str());
    out
}

/// The header rows of a subcommand's options help.
pub fn print_sub_usage(app: &str, cmd: &str) -> (r: Vec<String>)
    ensures
        r@.map_values(|s: String| s@) == seq![
            Seq::<char>::empty(),
            sub_title(app@, cmd@, "— subcommand options"@),
        ],
{
    let mut out: Vec<String> = Vec::new();
    out.push(String::new());
    out.push(sub_title_exec(app, cmd, "— subcommand options"));
    proof {
        assert(out@.map_values(|s: String| s@) =~= seq![
            Seq::<char>::empty(),
            sub_title(app@, cmd@, "— subcommand options"@),
        ]);
    }
    out
}

/// The help rows of a subcommand without options.
pub fn print_unit_help(app: &str, cmd: &str, opts: &[(&str, &str)]) -> (r: Vec<String>)
    ensures
        r@.map_values(|s: String| s@) == seq![
            Seq::<char>::empty(),
            sub_title(app@, cmd@, "— no options"@),
            painted(spec_dim(), BAR@) + "  "@ + painted(spec_dim(), "usage: "@ + app@ + " "@ + cmd@),
            Seq::<char>::empty(),
        ],
{
    let mut u = owned("usage: ");
    proof {
        reveal_strlit("usage: ");
    }
    u.append(app);
    u.append(" ");
    u.append(cmd);
    let mut row = paint(dim(), BAR);
    row.append("  ");
    let d = paint(dim(), u.as_str());
    row.append(d.as_str());
    let mut out: Vec<String> = Vec::new();
    out.push(String::new());
    out.push(sub_title_exec(app, cmd, "— no options"));
    out.push(row);
    out.push(String::new());
    proof {
        assert(out@.map_values(|s: String| s@) =~= seq![
            Seq::<char>::empty(),
            sub_title(app@, cmd@, "— no options"@),
            painted(spec_dim(), BAR@) + "  "@ + painted(spec_dim(), "usage: "@ + app@ + " "@ + cmd@),
            Seq::<char>::empty(),
        ]);
    }
    out
}

} // verus!

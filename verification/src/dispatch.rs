//! Subcommand dispatch: what the arguments of a program with subcommands
//! ask for (root help, version, completion scripts, completion
//! candidates, a subcommand's help, or running a subcommand with its
//! arguments), decided from the table of subcommands.

use vstd::prelude::*;
use crate::args::strs;
use crate::strutil::{has_prefix, owned, push_char, starts_with_exec, str_eq};

verus! {

broadcast use vstd::string::group_string_axioms;

/// One subcommand.
#[derive(Clone, Debug)]
pub struct CmdSpec {
    /// Its name (the variant's name in kebab case).
    pub name: String,
    /// Other names it answers to.
    pub aliases: Vec<String>,
    /// Its description.
    pub about: String,
    /// It takes options (a variant with an option struct).
    pub has_options: bool,
}

/// What the arguments ask for.
#[derive(Clone, Debug, PartialEq)]
pub enum Dispatch {
    /// Print the root help (exit 0).
    RootHelp,
    /// Print the version (exit 0).
    Version,
    /// Print the completion script for this shell (exit 0).
    Completions(String),
    /// Print these subcommand names, one per line (exit 0).
    CompleteNames(Vec<String>),
    /// Hand completion over to subcommand `.0` with this tag (exit 0).
    CompleteIn(usize, String),
    /// Print nothing (exit 0).
    CompleteNone,
    /// Print the root help and the missing-command error (exit 1).
    MissingCommand,
    /// Print the help of subcommand `.0`, which takes options (exit 0).
    SubHelp(usize),
    /// Print the help of subcommand `.0`, which takes none (exit 0).
    UnitHelp(usize),
    /// Refuse this flag given to a subcommand without options.
    UnknownFlag(String),
    /// Print the unknown-command error for this name (exit 1).
    UnknownCommand(String),
    /// Run subcommand `.0` with the global flags `.1` and its arguments `.2`.
    Run(usize, Vec<String>, Vec<String>),
}

/// [`Dispatch`] as plain values.
pub enum DispatchV {
    RootHelp,
    Version,
    Completions(Seq<char>),
    CompleteNames(Seq<Seq<char>>),
    CompleteIn(usize, Seq<char>),
    CompleteNone,
    MissingCommand,
    SubHelp(usize),
    UnitHelp(usize),
    UnknownFlag(Seq<char>),
    UnknownCommand(Seq<char>),
    Run(usize, Seq<Seq<char>>, Seq<Seq<char>>),
}

pub open spec fn dispatch_view(d: Dispatch) -> DispatchV {
    match d {
        Dispatch::RootHelp => DispatchV::RootHelp,
        Dispatch::Version => DispatchV::Version,
        Dispatch::Completions(s) => DispatchV::Completions(s@),
        Dispatch::CompleteNames(v) => DispatchV::CompleteNames(strs(v@)),
        Dispatch::CompleteIn(m, t) => DispatchV::CompleteIn(m, t@),
        Dispatch::CompleteNone => DispatchV::CompleteNone,
        Dispatch::MissingCommand => DispatchV::MissingCommand,
        Dispatch::SubHelp(m) => DispatchV::SubHelp(m),
        Dispatch::UnitHelp(m) => DispatchV::UnitHelp(m),
        Dispatch::UnknownFlag(f) => DispatchV::UnknownFlag(f@),
        Dispatch::UnknownCommand(c) => DispatchV::UnknownCommand(c@),
        Dispatch::Run(m, g, r) => DispatchV::Run(m, strs(g@), strs(r@)),
    }
}

// ── searching the arguments ──────────────────────────────────────────────────

/// The first index from `i` on whose token is `a` or `b`, or -1.
pub open spec fn find_tok(args: Seq<Seq<char>>, a: Seq<char>, b: Seq<char>, i: int) -> int
    decreases args.len() - i,
{
    if i < 0 || i >= args.len() {
        -1
    } else if args[i] == a || args[i] == b {
        i
    } else {
        find_tok(args, a, b, i + 1)
    }
}

/// The first index from `i` on whose token does not start with `-`, or -1.
pub open spec fn find_word(args: Seq<Seq<char>>, i: int) -> int
    decreases args.len() - i,
{
    if i < 0 || i >= args.len() {
        -1
    } else if !has_prefix(args[i], seq!['-']) {
        i
    } else {
        find_word(args, i + 1)
    }
}

/// The first token from `i` on that starts with `-`, or -1.
pub open spec fn find_dash(args: Seq<Seq<char>>, i: int) -> int
    decreases args.len() - i,
{
    if i < 0 || i >= args.len() {
        -1
    } else if has_prefix(args[i], seq!['-']) {
        i
    } else {
        find_dash(args, i + 1)
    }
}

/// Every name the subcommands answer to: each name, then its aliases.
pub open spec fn all_names(cmds: Seq<CmdSpec>, n: int) -> Seq<Seq<char>>
    decreases n,
{
    if n <= 0 {
        Seq::empty()
    } else {
        all_names(cmds, n - 1) + seq![cmds[n - 1].name@] + strs(cmds[n - 1].aliases@)
    }
}

/// The first subcommand from `m` on that answers to `c`.
pub open spec fn cmd_index(cmds: Seq<CmdSpec>, c: Seq<char>, m: int) -> Option<usize>
    decreases cmds.len() - m,
{
    if m < 0 || m >= cmds.len() {
        None
    } else if cmds[m].name@ == c || strs(cmds[m].aliases@).contains(c) {
        Some(m as usize)
    } else {
        cmd_index(cmds, c, m + 1)
    }
}

/// The tokens without the one at `i`.
pub open spec fn without(args: Seq<Seq<char>>, i: int) -> Seq<Seq<char>> {
    args.take(i) + args.skip(i + 1)
}

/// The tag that hands completion to a subcommand: `complete: ` when
/// nothing follows it, else `complete:` and the following tokens joined
/// with spaces.
pub open spec fn complete_tag(rest: Seq<Seq<char>>) -> Seq<char> {
    if rest.len() == 0 {
        "complete: "@
    } else {
        "complete:"@ + crate::strutil::joined(rest, " "@)
    }
}

/// How the subcommand `c` runs with `rest`.
pub open spec fn run_cmd(cmds: Seq<CmdSpec>, c: Seq<char>, global: Seq<Seq<char>>, rest: Seq<Seq<char>>) -> DispatchV {
    match cmd_index(cmds, c, 0) {
        None => DispatchV::UnknownCommand(c),
        Some(m) => if find_tok(rest, "--help"@, "-h"@, 0) >= 0 {
            if cmds[m as int].has_options {
                DispatchV::SubHelp(m)
            } else {
                DispatchV::UnitHelp(m)
            }
        } else if !cmds[m as int].has_options && find_dash(rest, 0) >= 0 {
            DispatchV::UnknownFlag(rest[find_dash(rest, 0)])
        } else {
            DispatchV::Run(m, global, rest)
        },
    }
}

/// What the arguments ask for, in this order:
/// - `--help`/`-h` before any subcommand (or with none): the root help;
/// - `--version`/`-V` anywhere: the version;
/// - `--completions [shell]`: the script for the shell (bash by default);
/// - `--complete [word]` with no word or a flag: the names that start
///   with it; `--complete sub ...`: completion inside `sub` when it takes
///   options, nothing otherwise;
/// - the leading flags are the global ones when the program has them;
/// - no subcommand: the missing-command error;
/// - `help` alone: the root help; `help sub`: `sub`'s help;
/// - a subcommand given `--help`/`-h`: its help; a subcommand without
///   options given a flag: that flag refused; an unknown name: the
///   unknown-command error; otherwise run it with the other tokens.
pub open spec fn dispatched(cmds: Seq<CmdSpec>, args: Seq<Seq<char>>, has_global: bool) -> DispatchV {
    let hp = find_tok(args, "--help"@, "-h"@, 0);
    let sp = find_word(args, 0);
    let vp = find_tok(args, "--version"@, "-V"@, 0);
    let cp = find_tok(args, "--completions"@, "--completions"@, 0);
    let kp = find_tok(args, "--complete"@, "--complete"@, 0);
    if hp >= 0 && (sp < 0 || hp < sp) {
        DispatchV::RootHelp
    } else if vp >= 0 {
        DispatchV::Version
    } else if cp >= 0 {
        DispatchV::Completions(if cp + 1 < args.len() { args[cp + 1] } else { "bash"@ })
    } else if kp >= 0 {
        let first = if kp + 1 < args.len() { args[kp + 1] } else { Seq::<char>::empty() };
        if first.len() == 0 || has_prefix(first, seq!['-']) {
            let names = all_names(cmds, cmds.len() as int);
            DispatchV::CompleteNames(names.filter(|n: Seq<char>| has_prefix(n, first)))
        } else {
            match cmd_index(cmds, first, 0) {
                Some(m) => if cmds[m as int].has_options {
                    DispatchV::CompleteIn(m, complete_tag(args.skip(kp + 2)))
                } else {
                    DispatchV::CompleteNone
                },
                None => DispatchV::CompleteNone,
            }
        }
    } else {
        let k = if has_global { crate::first_non_flag(args) } else { 0 };
        let global = args.take(k);
        let raw = args.skip(k);
        let w = find_word(raw, 0);
        if w < 0 {
            DispatchV::MissingCommand
        } else {
            let c = raw[w];
            let rest = without(raw, w);
            if c == "help"@ {
                if rest.len() == 0 || rest[0].len() == 0 {
                    DispatchV::RootHelp
                } else {
                    run_cmd(cmds, rest[0], global, seq!["--help"@])
                }
            } else {
                run_cmd(cmds, c, global, rest)
            }
        }
    }
}

// ── executable ───────────────────────────────────────────────────────────────

fn find_tok_exec(args: &Vec<String>, a: &str, b: &str) -> (r: Option<usize>)
    ensures
        match r {
            Some(i) => find_tok(strs(args@), a@, b@, 0) == i && i < args@.len(),
            None => find_tok(strs(args@), a@, b@, 0) == -1,
        },
{
    let ghost s = strs(args@);
    let mut i: usize = 0;
    while i < args.len()
        invariant
            s == strs(args@),
            0 <= i <= args@.len(),
            find_tok(s, a@, b@, 0) == find_tok(s, a@, b@, i as int),
        decreases args@.len() - i,
    {
        proof {
            assert(s[i as int] == args@[i as int]@);
        }
        if str_eq(args[i].as_str(), a) || str_eq(args[i].as_str(), b) {
            return Some(i);
        }
        i += 1;
    }
    None
}

fn find_word_exec(args: &Vec<String>, dash: &str, want_dash: bool) -> (r: Option<usize>)
    requires
        dash@ == seq!['-'],
    ensures
        !want_dash ==> match r {
            Some(i) => find_word(strs(args@), 0) == i && i < args@.len(),
            None => find_word(strs(args@), 0) == -1,
        },
        want_dash ==> match r {
            Some(i) => find_dash(strs(args@), 0) == i && i < args@.len(),
            None => find_dash(strs(args@), 0) == -1,
        },
{
    let ghost s = strs(args@);
    let mut i: usize = 0;
    while i < args.len()
        invariant
            s == strs(args@),
            dash@ == seq!['-'],
            0 <= i <= args@.len(),
            !want_dash ==> find_word(s, 0) == find_word(s, i as int),
            want_dash ==> find_dash(s, 0) == find_dash(s, i as int),
        decreases args@.len() - i,
    {
        proof {
            assert(s[i as int] == args@[i as int]@);
        }
        if starts_with_exec(args[i].as_str(), dash) == want_dash {
            return Some(i);
        }
        i += 1;
    }
    None
}

fn cmd_index_exec(cmds: &Vec<CmdSpec>, c: &str) -> (r: Option<usize>)
    ensures
        r == cmd_index(cmds@, c@, 0),
        r matches Some(m) ==> m < cmds@.len(),
{
    let mut m: usize = 0;
    while m < cmds.len()
        invariant
            0 <= m <= cmds@.len(),
            cmd_index(cmds@, c@, 0) == cmd_index(cmds@, c@, m as int),
        decreases cmds@.len() - m,
    {
        if str_eq(cmds[m].name.as_str(), c) {
            return Some(m);
        }
        let al = &cmds[m].aliases;
        let mut k: usize = 0;
        while k < al.len()
            invariant
                0 <= k <= al@.len(),
                m < cmds@.len(),
                al@ == cmds@[m as int].aliases@,
                forall|x: int| 0 <= x < k ==> al@[x]@ != c@,
                cmd_index(cmds@, c@, 0) == cmd_index(cmds@, c@, m as int),
            decreases al@.len() - k,
        {
            if str_eq(al[k].as_str(), c) {
                proof {
                    assert(strs(al@)[k as int] == c@);
                }
                return Some(m);
            }
            k += 1;
        }
        proof {
            assert forall|x: int| 0 <= x < strs(al@).len() implies strs(al@)[x] != c@ by {
                assert(strs(al@)[x] == al@[x]@);
            }
        }
        m += 1;
    }
    None
}

fn copy_range(args: &Vec<String>, from: usize, to: usize) -> (r: Vec<String>)
    requires
        from <= to <= args@.len(),
    ensures
        strs(r@) == strs(args@).subrange(from as int, to as int),
{
    let mut out: Vec<String> = Vec::new();
    let mut i = from;
    while i < to
        invariant
            from <= i <= to <= args@.len(),
            strs(out@) == strs(args@).subrange(from as int, i as int),
        decreases to - i,
    {
        let ghost prev = out@;
        let x = args[i].clone();
        let ghost xv = x@;
        out.push(x);
        proof {
            assert(strs(out@) =~= strs(prev).push(xv));
            assert(xv == strs(args@)[i as int]);
            assert(strs(out@) =~= strs(args@).subrange(from as int, i + 1));
        }
        i += 1;
    }
    out
}

fn without_exec(args: &Vec<String>, w: usize) -> (r: Vec<String>)
    requires
        w < args@.len(),
    ensures
        strs(r@) == without(strs(args@), w as int),
{
    assert(args@.len() == args.len());
    let mut out = copy_range(args, 0, w);
    let tail = copy_range(args, w + 1, args.len());
    let ghost a = strs(out@);
    let mut i: usize = 0;
    while i < tail.len()
        invariant
            0 <= i <= tail@.len(),
            strs(out@) == a + strs(tail@).take(i as int),
        decreases tail@.len() - i,
    {
        let ghost prev = out@;
        let x = tail[i].clone();
        let ghost xv = x@;
        out.push(x);
        proof {
            assert(strs(out@) =~= strs(prev).push(xv));
            assert(xv == strs(tail@)[i as int]);
            assert(strs(out@) =~= a + strs(tail@).take(i + 1));
        }
        i += 1;
    }
    proof {
        let s = strs(args@);
        assert(strs(tail@).take(tail@.len() as int) =~= strs(tail@));
        assert(s.take(w as int) =~= s.subrange(0, w as int));
        assert(s.skip(w + 1) =~= s.subrange(w + 1, s.len() as int));
    }
    out
}

fn run_cmd_exec(cmds: &Vec<CmdSpec>, c: &str, global: Vec<String>, rest: Vec<String>) -> (r: Dispatch)
    ensures
        dispatch_view(r) == run_cmd(cmds@, c@, strs(global@), strs(rest@)),
{
    match cmd_index_exec(cmds, c) {
        None => Dispatch::UnknownCommand(owned(c)),
        Some(m) => {
            if find_tok_exec(&rest, "--help", "-h").is_some() {
                if cmds[m].has_options {
                    Dispatch::SubHelp(m)
                } else {
                    Dispatch::UnitHelp(m)
                }
            } else {
                let mut dash = String::new();
                push_char(&mut dash, '-');
                if !cmds[m].has_options {
                    match find_word_exec(&rest, dash.as_str(), true) {
                        Some(i) => {
                            proof {
                                assert(strs(rest@)[i as int] == rest@[i as int]@);
                            }
                            return Dispatch::UnknownFlag(rest[i].clone());
                        },
                        None => {},
                    }
                }
                Dispatch::Run(m, global, rest)
            }
        },
    }
}

/// Decide what the arguments ask for (see [`dispatched`]).
pub fn dispatch_command(cmds: &Vec<CmdSpec>, args: &Vec<String>, has_global: bool) -> (r: Dispatch)
    ensures
        dispatch_view(r) == dispatched(cmds@, strs(args@), has_global),
{
    let ghost s = strs(args@);
    let mut dash = String::new();
    push_char(&mut dash, '-');
    let hp = find_tok_exec(args, "--help", "-h");
    let sp = find_word_exec(args, dash.as_str(), false);
    let root_help = match (hp, sp) {
        (Some(h), Some(w)) => h < w,
        (Some(_), None) => true,
        _ => false,
    };
    if root_help {
        return Dispatch::RootHelp;
    }
    if find_tok_exec(args, "--version", "-V").is_some() {
        return Dispatch::Version;
    }
    match find_tok_exec(args, "--completions", "--completions") {
        Some(ci) => {
            if ci < args.len() - 1 {
                proof {
                    assert(s[ci + 1] == args@[ci + 1]@);
                }
                return Dispatch::Completions(args[ci + 1].clone());
            }
            return Dispatch::Completions(owned("bash"));
        },
        None => {},
    }
    match find_tok_exec(args, "--complete", "--complete") {
        Some(ki) => {
            let first = if ki < args.len() - 1 {
                proof {
                    assert(s[ki + 1] == args@[ki + 1]@);
                }
                args[ki + 1].clone()
            } else {
                String::new()
            };
            if first.as_str().is_empty() || starts_with_exec(first.as_str(), dash.as_str()) {
                return Dispatch::CompleteNames(complete_names(cmds, first.as_str()));
            }
            match cmd_index_exec(cmds, first.as_str()) {
                Some(m) => {
                    if cmds[m].has_options {
                        let rest = copy_range(args, ki + 2, args.len());
                        proof {
                            assert(s.skip(ki + 2) =~= s.subrange(ki + 2, s.len() as int));
                        }
                        let tag = complete_tag_exec(&rest);
                        return Dispatch::CompleteIn(m, tag);
                    }
                    return Dispatch::CompleteNone;
                },
                None => {
                    return Dispatch::CompleteNone;
                },
            }
        },
        None => {},
    }
    let (global, raw) = if has_global {
        crate::split_global_args(args)
    } else {
        let g: Vec<String> = Vec::new();
        let r = copy_range(args, 0, args.len());
        proof {
            assert(strs(g@) =~= s.take(0));
            assert(s.subrange(0, s.len() as int) =~= s.skip(0));
        }
        (g, r)
    };
    proof {
        crate::lemma_first_non_flag(s);
    }
    match find_word_exec(&raw, dash.as_str(), false) {
        None => Dispatch::MissingCommand,
        Some(w) => {
            let c = raw[w].clone();
            let rest = without_exec(&raw, w);
            proof {
                assert(strs(raw@)[w as int] == raw@[w as int]@);
            }
            if str_eq(c.as_str(), "help") {
                if rest.len() == 0 || rest[0].as_str().is_empty() {
                    proof {
                        if rest.len() > 0 {
                            assert(strs(rest@)[0] == rest@[0]@);
                        }
                    }
                    return Dispatch::RootHelp;
                }
                proof {
                    assert(strs(rest@)[0] == rest@[0]@);
                }
                let mut h: Vec<String> = Vec::new();
                h.push(owned("--help"));
                proof {
                    assert(strs(h@) =~= seq!["--help"@]);
                }
                return run_cmd_exec(cmds, rest[0].as_str(), global, h);
            }
            run_cmd_exec(cmds, c.as_str(), global, rest)
        },
    }
}

fn complete_tag_exec(rest: &Vec<String>) -> (r: String)
    ensures
        r@ == complete_tag(strs(rest@)),
{
    if rest.len() == 0 {
        owned("complete: ")
    } else {
        let mut t = owned("complete:");
        let j = crate::strutil::join(rest, " ");
        t.append(j.as_str());
        t
    }
}

fn complete_names(cmds: &Vec<CmdSpec>, word: &str) -> (r: Vec<String>)
    ensures
        strs(r@) == all_names(cmds@, cmds@.len() as int).filter(|n: Seq<char>| has_prefix(n, word@)),
{
    let ghost f = |n: Seq<char>| has_prefix(n, word@);
    let mut all: Vec<String> = Vec::new();
    let mut m: usize = 0;
    while m < cmds.len()
        invariant
            0 <= m <= cmds@.len(),
            strs(all@) == all_names(cmds@, m as int),
        decreases cmds@.len() - m,
    {
        let ghost prev = strs(all@);
        let ghost before0 = all@;
        all.push(cmds[m].name.clone());
        proof {
            assert(strs(all@) =~= strs(before0).push(cmds@[m as int].name@));
        }
        let al = &cmds[m].aliases;
        let mut k: usize = 0;
        proof {
            assert(strs(al@).take(0) =~= Seq::<Seq<char>>::empty());
        }
        while k < al.len()
            invariant
                0 <= k <= al@.len(),
                m < cmds@.len(),
                prev == all_names(cmds@, m as int),
                al@ == cmds@[m as int].aliases@,
                strs(all@) == prev + seq![cmds@[m as int].name@] + strs(al@).take(k as int),
            decreases al@.len() - k,
        {
            let ghost before = all@;
            let x = al[k].clone();
            let ghost xv = x@;
            all.push(x);
            proof {
                assert(strs(all@) =~= strs(before).push(xv));
                assert(xv == strs(al@)[k as int]);
                assert(strs(all@) =~= prev + seq![cmds@[m as int].name@] + strs(al@).take(k + 1));
            }
            k += 1;
        }
        proof {
            assert(strs(al@).take(al@.len() as int) =~= strs(al@));
        }
        m += 1;
    }
    let ghost names = strs(all@);
    let mut out: Vec<String> = Vec::new();
    let mut i: usize = 0;
    proof {
        assert(names.take(0) =~= Seq::<Seq<char>>::empty());
        assert(Seq::<Seq<char>>::empty().filter(f) =~= Seq::<Seq<char>>::empty()) by {
            reveal(Seq::filter);
        }
    }
    while i < all.len()
        invariant
            names == strs(all@),
            f == (|n: Seq<char>| has_prefix(n, word@)),
            0 <= i <= all@.len(),
            strs(out@) == names.take(i as int).filter(f),
        decreases all@.len() - i,
    {
        proof {
            assert(names.take(i + 1) =~= names.take(i as int).push(names[i as int]));
            names.take(i as int).lemma_filter_push(names[i as int], f);
            assert(names[i as int] == all@[i as int]@);
        }
        if starts_with_exec(all[i].as_str(), word) {
            let ghost prev = out@;
            out.push(all[i].clone());
            proof {
                assert(strs(out@) =~= strs(prev).push(all@[i as int]@));
            }
        }
        i += 1;
    }
    proof {
        assert(names.take(names.len() as int) =~= names);
    }
    out
}

} // verus!

//! Shell completion for an option struct: what kind of value each flag
//! completes to, which flag a `--complete` request is for, and the bash,
//! zsh and fish scripts.

use vstd::prelude::*;
use crate::argcheck::ArgCheck;
use crate::args::{debug_str, str_debug, strs};
use crate::strutil::{joined, owned, push_char, str_eq};

verus! {

broadcast use vstd::string::group_string_axioms;

/// What a flag's value completes to.
#[derive(Clone, Debug, PartialEq)]
pub enum CompletionKind {
    /// A switch: no value.
    NoValue,
    /// Any file.
    Files,
    /// Files with one of these extensions; the extension is left out of
    /// the candidates when `.1`.
    FilesExt(Vec<String>, bool),
    /// Directories.
    Dirs,
    /// A fixed list of values.
    Static(Vec<String>),
    /// Values from a function of the program.
    Dynamic,
    /// Files matching a glob pattern.
    Glob(String),
    /// A plain word, left to the shell.
    Word,
}

/// One flag as completion sees it.
#[derive(Clone, Debug)]
pub struct CompletionSpec {
    pub long: String,
    pub short: Option<char>,
    pub desc: String,
    pub is_bool: bool,
    pub negatable: bool,
    pub kind: CompletionKind,
}

/// [`CompletionKind`] as plain values.
pub enum KindV {
    NoValue,
    Files,
    FilesExt(Seq<Seq<char>>, bool),
    Dirs,
    Static(Seq<Seq<char>>),
    Dynamic,
    Glob(Seq<char>),
    Word,
}

pub open spec fn kind_view(k: CompletionKind) -> KindV {
    match k {
        CompletionKind::NoValue => KindV::NoValue,
        CompletionKind::Files => KindV::Files,
        CompletionKind::FilesExt(e, s) => KindV::FilesExt(strs(e@), s),
        CompletionKind::Dirs => KindV::Dirs,
        CompletionKind::Static(v) => KindV::Static(strs(v@)),
        CompletionKind::Dynamic => KindV::Dynamic,
        CompletionKind::Glob(p) => KindV::Glob(p@),
        CompletionKind::Word => KindV::Word,
    }
}

/// The kinds of check completion reads: 1 one-of, 2 is-dir, 3 extension,
/// 4 is-file, 5 glob, 0 the others.
pub open spec fn check_kind(c: ArgCheck) -> int {
    match c {
        ArgCheck::OneOf(_) => 1,
        ArgCheck::IsDir => 2,
        ArgCheck::Ext(_) => 3,
        ArgCheck::IsFile => 4,
        ArgCheck::Glob(_) => 5,
        _ => 0,
    }
}

/// The index of the last check of kind `which` among `checks[..n]`.
pub open spec fn last_check(checks: Seq<ArgCheck>, n: int, which: int) -> Option<int>
    decreases n,
{
    if n <= 0 {
        None
    } else if check_kind(checks[n - 1]) == which {
        Some(n - 1)
    } else {
        last_check(checks, n - 1, which)
    }
}

/// The completion of a flag, from its checks, in this order: a function
/// of the program; the (last) list of values; directories; the (last)
/// extensions, stripped for a single extension of a value that is not a
/// path; files; the (last) glob; then by type: files for a path, nothing
/// for a `bool`, a word otherwise.
pub open spec fn inferred(checks: Seq<ArgCheck>, dynamic: bool, is_path: bool, is_bool: bool) -> KindV {
    let n = checks.len() as int;
    if dynamic {
        KindV::Dynamic
    } else if let Some(i) = last_check(checks, n, 1) {
        match checks[i] {
            ArgCheck::OneOf(v) => KindV::Static(strs(v@)),
            _ => KindV::Word,
        }
    } else if last_check(checks, n, 2) is Some {
        KindV::Dirs
    } else if let Some(i) = last_check(checks, n, 3) {
        match checks[i] {
            ArgCheck::Ext(e) => KindV::FilesExt(strs(e@), e@.len() == 1 && !is_path),
            _ => KindV::Word,
        }
    } else if last_check(checks, n, 4) is Some {
        KindV::Files
    } else if let Some(i) = last_check(checks, n, 5) {
        match checks[i] {
            ArgCheck::Glob(p) => KindV::Glob(p@),
            _ => KindV::Word,
        }
    } else if is_path {
        KindV::Files
    } else if is_bool {
        KindV::NoValue
    } else {
        KindV::Word
    }
}

fn last_check_exec(checks: &Vec<ArgCheck>, which: u8) -> (r: Option<usize>)
    ensures
        match r {
            Some(i) => last_check(checks@, checks@.len() as int, which as int) == Some(i as int) && i
                < checks@.len() && check_kind(checks@[i as int]) == which as int,
            None => last_check(checks@, checks@.len() as int, which as int) is None,
        },
{
    let mut found: Option<usize> = None;
    let mut k: usize = 0;
    while k < checks.len()
        invariant
            0 <= k <= checks@.len(),
            match found {
                Some(i) => last_check(checks@, k as int, which as int) == Some(i as int) && i < k
                    && check_kind(checks@[i as int]) == which as int,
                None => last_check(checks@, k as int, which as int) is None,
            },
        decreases checks@.len() - k,
    {
        let kind: u8 = match &checks[k] {
            ArgCheck::OneOf(_) => 1,
            ArgCheck::IsDir => 2,
            ArgCheck::Ext(_) => 3,
            ArgCheck::IsFile => 4,
            ArgCheck::Glob(_) => 5,
            _ => 0,
        };
        if kind == which {
            found = Some(k);
        }
        k += 1;
    }
    found
}

fn clone_strings(v: &Vec<String>) -> (r: Vec<String>)
    ensures
        strs(r@) == strs(v@),
{
    let mut out: Vec<String> = Vec::new();
    let mut i: usize = 0;
    while i < v.len()
        invariant
            0 <= i <= v@.len(),
            strs(out@) == strs(v@).take(i as int),
        decreases v@.len() - i,
    {
        let ghost prev = out@;
        out.push(v[i].clone());
        proof {
            assert(strs(out@) =~= strs(prev).push(v@[i as int]@));
            assert(strs(out@) =~= strs(v@).take(i + 1));
        }
        i += 1;
    }
    proof {
        assert(strs(v@).take(v@.len() as int) =~= strs(v@));
    }
    out
}

/// The completion of a flag (see [`inferred`]).
pub fn infer_completion(checks: &Vec<ArgCheck>, dynamic: bool, is_path: bool, is_bool: bool) -> (r: CompletionKind)
    ensures
        kind_view(r) == inferred(checks@, dynamic, is_path, is_bool),
{
    if dynamic {
        return CompletionKind::Dynamic;
    }
    if let Some(i) = last_check_exec(checks, 1) {
        if let ArgCheck::OneOf(v) = &checks[i] {
            return CompletionKind::Static(clone_strings(v));
        }
        return CompletionKind::Word;
    }
    if last_check_exec(checks, 2).is_some() {
        return CompletionKind::Dirs;
    }
    if let Some(i) = last_check_exec(checks, 3) {
        if let ArgCheck::Ext(e) = &checks[i] {
            let strip = e.len() == 1 && !is_path;
            return CompletionKind::FilesExt(clone_strings(e), strip);
        }
        return CompletionKind::Word;
    }
    if last_check_exec(checks, 4).is_some() {
        return CompletionKind::Files;
    }
    if let Some(i) = last_check_exec(checks, 5) {
        if let ArgCheck::Glob(p) = &checks[i] {
            return CompletionKind::Glob(p.clone());
        }
        return CompletionKind::Word;
    }
    if is_path {
        CompletionKind::Files
    } else if is_bool {
        CompletionKind::NoValue
    } else {
        CompletionKind::Word
    }
}

// ── which flag a request is for ─────────────────────────────────────────────

/// The kind completes at run time (not a switch or a plain word).
pub open spec fn runs(k: CompletionKind) -> bool {
    !(k is NoValue) && !(k is Word)
}

/// The first flag from `i` on that `flag` names (`--long` or `-s`) and
/// whose values complete at run time.
pub open spec fn flag_for(specs: Seq<CompletionSpec>, flag: Seq<char>, i: int) -> Option<usize>
    decreases specs.len() - i,
{
    if i < 0 || i >= specs.len() {
        None
    } else if runs(specs[i].kind) && (flag == crate::args::dashes(specs[i].long@) || (
    specs[i].short matches Some(c) && flag == seq!['-', c])) {
        Some(i as usize)
    } else {
        flag_for(specs, flag, i + 1)
    }
}

/// The flag a `--complete <flag> <word>` request is for (see
/// [`flag_for`]); `None` prints nothing.
pub fn completion_for_flag(specs: &Vec<CompletionSpec>, flag: &str) -> (r: Option<usize>)
    ensures
        r == flag_for(specs@, flag@, 0),
{
    let mut i: usize = 0;
    while i < specs.len()
        invariant
            0 <= i <= specs@.len(),
            flag_for(specs@, flag@, 0) == flag_for(specs@, flag@, i as int),
        decreases specs@.len() - i,
    {
        let sp = &specs[i];
        let runs_now = match &sp.kind {
            CompletionKind::NoValue => false,
            CompletionKind::Word => false,
            _ => true,
        };
        if runs_now {
            let mut long = String::new();
            push_char(&mut long, '-');
            push_char(&mut long, '-');
            long.append(sp.long.as_str());
            proof {
                assert(long@ =~= crate::args::dashes(sp.long@));
            }
            if str_eq(long.as_str(), flag) {
                return Some(i);
            }
            match sp.short {
                Some(c) => {
                    let mut sh = String::new();
                    push_char(&mut sh, '-');
                    push_char(&mut sh, c);
                    proof {
                        assert(sh@ =~= seq!['-', c]);
                    }
                    if str_eq(sh.as_str(), flag) {
                        return Some(i);
                    }
                },
                None => {},
            }
        }
        i += 1;
    }
    None
}

// ── scripts ──────────────────────────────────────────────────────────────────

/// `--long`.
pub open spec fn long_flag(sp: CompletionSpec) -> Seq<char> {
    crate::args::dashes(sp.long@)
}

/// The flags the scripts offer: the meta flags, then each flag and the
/// `--no-` form of a negatable one, among the first `n`.
pub open spec fn offered(specs: Seq<CompletionSpec>, n: int) -> Seq<Seq<char>>
    decreases n,
{
    if n <= 0 {
        seq!["--help"@, "--version"@, "--completions"@]
    } else {
        let p = offered(specs, n - 1);
        let sp = specs[n - 1];
        if sp.negatable {
            p.push(long_flag(sp)).push("--no-"@ + sp.long@)
        } else {
            p.push(long_flag(sp))
        }
    }
}

/// The bash reply for a flag's value.
pub open spec fn bash_reply(app: Seq<char>, sp: CompletionSpec) -> Seq<char> {
    if sp.is_bool {
        "COMPREPLY=()"@
    } else {
        match sp.kind {
            CompletionKind::Static(v) => "COMPREPLY=($(compgen -W "@ + str_debug(joined(strs(v@), " "@))
                + " -- \"$cur\"))"@,
            CompletionKind::NoValue => "COMPREPLY=($(compgen -f -- \"$cur\"))"@,
            CompletionKind::Word => "COMPREPLY=($(compgen -f -- \"$cur\"))"@,
            _ => "COMPREPLY=($("@ + app + " --complete "@ + long_flag(sp) + " \"$cur\" 2>/dev/null))"@,
        }
    }
}

/// The bash case arms of the first `n` flags.
pub open spec fn bash_cases(app: Seq<char>, specs: Seq<CompletionSpec>, n: int) -> Seq<char>
    decreases n,
{
    if n <= 0 {
        Seq::empty()
    } else {
        bash_cases(app, specs, n - 1) + "        "@ + long_flag(specs[n - 1]) + ")\n            "@
            + bash_reply(app, specs[n - 1]) + "\n            ;;\n"@
    }
}

/// The bash script: a function that completes each flag's value by its
/// kind and otherwise offers the flags, registered for the program.
pub open spec fn bash_script(app: Seq<char>, specs: Seq<CompletionSpec>) -> Seq<char> {
    "_"@ + app
        + "() {\n    local cur prev opts\n    cur=\"${COMP_WORDS[COMP_CWORD]}\"\n    prev=\"${COMP_WORDS[COMP_CWORD-1]}\"\n    opts=\""@
        + joined(offered(specs, specs.len() as int), " "@) + "\"\n\n    case \"$prev\" in\n"@
        + bash_cases(app, specs, specs.len() as int)
        + "        *)\n            COMPREPLY=($(compgen -W \"$opts\" -- \"$cur\"))\n            ;;\n    esac\n}\ncomplete -F _"@
        + app + " "@ + app + "\n"@
}

/// `s` with each `'` written `'\''`, for a single-quoted zsh word.
pub open spec fn zsh_escaped(s: Seq<char>) -> Seq<char>
    decreases s.len(),
{
    if s.len() == 0 {
        Seq::empty()
    } else {
        zsh_escaped(s.drop_last()) + if s.last() == '\'' {
            seq!['\'', '\\', '\'', '\'']
        } else {
            seq![s.last()]
        }
    }
}

/// The glob of a list of extensions: `*.e` for one, `*.{a,b}` for more.
pub open spec fn ext_glob(e: Seq<Seq<char>>) -> Seq<char> {
    if e.len() == 1 {
        "*."@ + e[0]
    } else {
        "*.{"@ + joined(e, ","@) + "}"@
    }
}

/// A flag's zsh `_arguments` spec; `cmd` is the command that prints
/// candidates at completion time.
pub open spec fn zsh_spec(cmd: Seq<char>, sp: CompletionSpec) -> Seq<char> {
    let head = "'"@ + long_flag(sp) + "["@ + zsh_escaped(sp.desc@);
    if sp.is_bool {
        head + "]'"@
    } else {
        match sp.kind {
            CompletionKind::Static(v) => head + "]: :("@ + joined(strs(v@), " "@) + ")'"@,
            CompletionKind::FilesExt(e, _) => head + "]:file:_files -g \""@ + ext_glob(strs(e@))
                + "\"'"@,
            CompletionKind::Files => head + "]:file:_files'"@,
            CompletionKind::Dirs => head + "]:dir:_files -/'"@,
            CompletionKind::Glob(p) => head + "]:file:_files -g \""@ + p@ + "\"'"@,
            _ => head + "]: :{"@ + cmd + " "@ + long_flag(sp) + " $words[$CURRENT]}'"@,
        }
    }
}

/// The zsh specs: the meta flags, then each flag's among the first `n`.
pub open spec fn zsh_specs(app: Seq<char>, specs: Seq<CompletionSpec>, n: int) -> Seq<Seq<char>>
    decreases n,
{
    if n <= 0 {
        seq![
            "'--help[Print help]'"@,
            "'--version[Print version]'"@,
            "'--completions[Generate completions]:shell:(bash zsh fish)'"@,
        ]
    } else {
        zsh_specs(app, specs, n - 1).push(zsh_spec(app + " --complete"@, specs[n - 1]))
    }
}

/// The zsh script: a `_arguments` function over the specs.
pub open spec fn zsh_script(app: Seq<char>, specs: Seq<CompletionSpec>) -> Seq<char> {
    "#compdef "@ + app + "\n_"@ + app + "() {\n    _arguments \\\n    "@ + joined(
        zsh_specs(app, specs, specs.len() as int),
        " \\\n    "@,
    ) + "\n}\ncompdef _"@ + app + " "@ + app + "\n\n"@
}

/// The fish arguments of a flag.
pub open spec fn fish_args(app: Seq<char>, sp: CompletionSpec) -> Seq<char> {
    if sp.is_bool {
        Seq::empty()
    } else {
        match sp.kind {
            CompletionKind::Static(v) => "-r -a '"@ + joined(strs(v@), " "@) + "'"@,
            CompletionKind::FilesExt(e, _) => "-r -F -a '(string match -r \"\\.("@ + joined(
                strs(e@),
                "|"@,
            ) + ")$\" (commandline -ct) > /dev/null; and __fish_complete_path (commandline -ct))'"@,
            CompletionKind::Files => "-r -F"@,
            CompletionKind::Dirs => "-r -a '(__fish_complete_directories (commandline -ct))'"@,
            _ => "-r -a '("@ + app + " --complete "@ + long_flag(sp) + " (commandline -ct) 2>/dev/null)'"@,
        }
    }
}

/// A flag's fish `complete` line.
pub open spec fn fish_line(app: Seq<char>, sp: CompletionSpec) -> Seq<char> {
    let short = match sp.short {
        Some(c) => "-s "@ + seq![c] + " "@,
        None => Seq::empty(),
    };
    "complete -c "@ + app + " -l "@ + sp.long@ + " "@ + short + " -d '"@ + sp.desc@ + "' "@
        + fish_args(app, sp) + "\n"@
}

/// The fish lines of the first `n` flags.
pub open spec fn fish_lines(app: Seq<char>, specs: Seq<CompletionSpec>, n: int) -> Seq<char>
    decreases n,
{
    if n <= 0 {
        Seq::empty()
    } else {
        fish_lines(app, specs, n - 1) + fish_line(app, specs[n - 1])
    }
}

/// The fish script: the meta flags' lines, then each flag's.
pub open spec fn fish_script(app: Seq<char>, specs: Seq<CompletionSpec>) -> Seq<char> {
    "complete -c "@ + app + " -l help    -d 'Print help'\n"@ + "complete -c "@ + app
        + " -l version -d 'Print version'\n"@ + "complete -c "@ + app
        + " -l completions -r -a 'bash zsh fish' -d 'Generate shell completions'\n"@ + fish_lines(
        app,
        specs,
        specs.len() as int,
    )
}

/// The completion script for `shell` (`bash`, `zsh` or `fish`), or the
/// error for another shell.
pub open spec fn completion_text(shell: Seq<char>, app: Seq<char>, specs: Seq<CompletionSpec>) -> Result<Seq<char>, Seq<char>> {
    if shell == "bash"@ {
        Ok(bash_script(app, specs))
    } else if shell == "zsh"@ {
        Ok(zsh_script(app, specs))
    } else if shell == "fish"@ {
        Ok(fish_script(app, specs))
    } else {
        Err("unknown shell: `"@ + shell + "`. Supported: bash, zsh, fish"@)
    }
}

fn long_flag_exec(sp: &CompletionSpec) -> (r: String)
    ensures
        r@ == long_flag(*sp),
{
    let mut out = String::new();
    push_char(&mut out, '-');
    push_char(&mut out, '-');
    out.append(sp.long.as_str());
    proof {
        assert(out@ =~= long_flag(*sp));
    }
    out
}

fn offered_exec(specs: &Vec<CompletionSpec>) -> (r: Vec<String>)
    ensures
        strs(r@) == offered(specs@, specs@.len() as int),
{
    let mut out: Vec<String> = Vec::new();
    out.push(owned("--help"));
    out.push(owned("--version"));
    out.push(owned("--completions"));
    proof {
        assert(strs(out@) =~= offered(specs@, 0));
    }
    let mut i: usize = 0;
    while i < specs.len()
        invariant
            0 <= i <= specs@.len(),
            strs(out@) == offered(specs@, i as int),
        decreases specs@.len() - i,
    {
        let ghost prev = strs(out@);
        out.push(long_flag_exec(&specs[i]));
        if specs[i].negatable {
            let mut no = owned("--no-");
            no.append(specs[i].long.as_str());
            out.push(no);
        }
        proof {
            assert(strs(out@) =~= offered(specs@, i + 1));
        }
        i += 1;
    }
    out
}

fn bash_reply_exec(app: &str, sp: &CompletionSpec) -> (r: String)
    ensures
        r@ == bash_reply(app@, *sp),
{
    if sp.is_bool {
        return owned("COMPREPLY=()");
    }
    match &sp.kind {
        CompletionKind::Static(v) => {
            let mut out = owned("COMPREPLY=($(compgen -W ");
            let j = crate::strutil::join(v, " ");
            let d = debug_str(j.as_str());
            out.append(d.as_str());
            out.append(" -- \"$cur\"))");
            out
        },
        CompletionKind::NoValue => owned("COMPREPLY=($(compgen -f -- \"$cur\"))"),
        CompletionKind::Word => owned("COMPREPLY=($(compgen -f -- \"$cur\"))"),
        _ => {
            let mut out = owned("COMPREPLY=($(");
            out.append(app);
            out.append(" --complete ");
            let f = long_flag_exec(sp);
            out.append(f.as_str());
            out.append(" \"$cur\" 2>/dev/null))");
            out
        },
    }
}

fn bash_script_exec(app: &str, specs: &Vec<CompletionSpec>) -> (r: String)
    ensures
        r@ == bash_script(app@, specs@),
{
    let mut out = owned("_");
    out.append(app);
    out.append(
        "() {\n    local cur prev opts\n    cur=\"${COMP_WORDS[COMP_CWORD]}\"\n    prev=\"${COMP_WORDS[COMP_CWORD-1]}\"\n    opts=\"",
    );
    let flags = offered_exec(specs);
    let j = crate::strutil::join(&flags, " ");
    out.append(j.as_str());
    out.append("\"\n\n    case \"$prev\" in\n");
    let ghost head = out@;
    let mut i: usize = 0;
    while i < specs.len()
        invariant
            0 <= i <= specs@.len(),
            out@ == head + bash_cases(app@, specs@, i as int),
        decreases specs@.len() - i,
    {
        let ghost before = out@;
        out.append("        ");
        let f = long_flag_exec(&specs[i]);
        out.append(f.as_str());
        out.append(")\n            ");
        let rp = bash_reply_exec(app, &specs[i]);
        out.append(rp.as_str());
        out.append("\n            ;;\n");
        proof {
            assert(out@ =~= head + bash_cases(app@, specs@, i + 1));
        }
        i += 1;
    }
    out.append(
        "        *)\n            COMPREPLY=($(compgen -W \"$opts\" -- \"$cur\"))\n            ;;\n    esac\n}\ncomplete -F _",
    );
    out.append(app);
    out.append(" ");
    out.append(app);
    out.append("\n");
    proof {
        assert(out@ =~= bash_script(app@, specs@));
    }
    out
}

fn zsh_escaped_exec(s: &str) -> (r: String)
    ensures
        r@ == zsh_escaped(s@),
{
    let v = crate::strutil::chars_of(s);
    let mut out = String::new();
    let mut i: usize = 0;
    while i < v.len()
        invariant
            v@ == s@,
            0 <= i <= v@.len(),
            out@ == zsh_escaped(v@.take(i as int)),
        decreases v@.len() - i,
    {
        if v[i] == '\'' {
            push_char(&mut out, '\'');
            push_char(&mut out, '\\');
            push_char(&mut out, '\'');
            push_char(&mut out, '\'');
        } else {
            push_char(&mut out, v[i]);
        }
        proof {
            assert(v@.take(i + 1).drop_last() =~= v@.take(i as int));
            assert(out@ =~= zsh_escaped(v@.take(i + 1)));
        }
        i += 1;
    }
    proof {
        assert(v@.take(v@.len() as int) =~= v@);
    }
    out
}

fn ext_glob_exec(e: &Vec<String>) -> (r: String)
    ensures
        r@ == ext_glob(strs(e@)),
{
    if e.len() == 1 {
        let mut out = owned("*.");
        out.append(e[0].as_str());
        out
    } else {
        let mut out = owned("*.{");
        let j = crate::strutil::join(e, ",");
        out.append(j.as_str());
        out.append("}");
        out
    }
}

fn zsh_spec_exec(cmd: &str, sp: &CompletionSpec) -> (r: String)
    ensures
        r@ == zsh_spec(cmd@, *sp),
{
    let mut out = owned("'");
    let f = long_flag_exec(sp);
    out.append(f.as_str());
    out.append("[");
    let d = zsh_escaped_exec(sp.desc.as_str());
    out.append(d.as_str());
    if sp.is_bool {
        out.append("]'");
        return out;
    }
    match &sp.kind {
        CompletionKind::Static(v) => {
            out.append("]: :(");
            let j = crate::strutil::join(v, " ");
            out.append(j.as_str());
            out.append(")'");
        },
        CompletionKind::FilesExt(e, _) => {
            out.append("]:file:_files -g \"");
            let g = ext_glob_exec(e);
            out.append(g.as_str());
            out.append("\"'");
        },
        CompletionKind::Files => {
            out.append("]:file:_files'");
        },
        CompletionKind::Dirs => {
            out.append("]:dir:_files -/'");
        },
        CompletionKind::Glob(p) => {
            out.append("]:file:_files -g \"");
            out.append(p.as_str());
            out.append("\"'");
        },
        _ => {
            out.append("]: :{");
            out.append(cmd);
            out.append(" ");
            out.append(f.as_str());
            out.append(" $words[$CURRENT]}'");
        },
    }
    out
}

fn zsh_script_exec(app: &str, specs: &Vec<CompletionSpec>) -> (r: String)
    ensures
        r@ == zsh_script(app@, specs@),
{
    let mut parts: Vec<String> = Vec::new();
    parts.push(owned("'--help[Print help]'"));
    parts.push(owned("'--version[Print version]'"));
    parts.push(owned("'--completions[Generate completions]:shell:(bash zsh fish)'"));
    proof {
        assert(strs(parts@) =~= zsh_specs(app@, specs@, 0));
    }
    let mut cmd = owned(app);
    cmd.append(" --complete");
    let mut i: usize = 0;
    while i < specs.len()
        invariant
            0 <= i <= specs@.len(),
            cmd@ == app@ + " --complete"@,
            strs(parts@) == zsh_specs(app@, specs@, i as int),
        decreases specs@.len() - i,
    {
        let ghost prev = strs(parts@);
        let z = zsh_spec_exec(cmd.as_str(), &specs[i]);
        parts.push(z);
        proof {
            assert(strs(parts@) =~= prev.push(zsh_spec(app@ + " --complete"@, specs@[i as int])));
        }
        i += 1;
    }
    let mut out = owned("#compdef ");
    out.append(app);
    out.append("\n_");
    out.append(app);
    out.append("() {\n    _arguments \\\n    ");
    let j = crate::strutil::join(&parts, " \\\n    ");
    out.append(j.as_str());
    out.append("\n}\ncompdef _");
    out.append(app);
    out.append(" ");
    out.append(app);
    out.append("\n\n");
    out
}

fn fish_args_exec(app: &str, sp: &CompletionSpec) -> (r: String)
    ensures
        r@ == fish_args(app@, *sp),
{
    if sp.is_bool {
        return String::new();
    }
    match &sp.kind {
        CompletionKind::Static(v) => {
            let mut out = owned("-r -a '");
            let j = crate::strutil::join(v, " ");
            out.append(j.as_str());
            out.append("'");
            out
        },
        CompletionKind::FilesExt(e, _) => {
            let mut out = owned("-r -F -a '(string match -r \"\\.(");
            let j = crate::strutil::join(e, "|");
            out.append(j.as_str());
            out.append(
                ")$\" (commandline -ct) > /dev/null; and __fish_complete_path (commandline -ct))'",
            );
            out
        },
        CompletionKind::Files => owned("-r -F"),
        CompletionKind::Dirs => owned("-r -a '(__fish_complete_directories (commandline -ct))'"),
        _ => {
            let mut out = owned("-r -a '(");
            out.append(app);
            out.append(" --complete ");
            let f = long_flag_exec(sp);
            out.append(f.as_str());
            out.append(" (commandline -ct) 2>/dev/null)'");
            out
        },
    }
}

fn fish_line_exec(app: &str, sp: &CompletionSpec) -> (r: String)
    ensures
        r@ == fish_line(app@, *sp),
{
    let short = match sp.short {
        Some(c) => {
            let mut s = owned("-s ");
            push_char(&mut s, c);
            s.append(" ");
            proof {
                assert(s@ =~= "-s "@ + seq![c] + " "@);
            }
            s
        },
        None => String::new(),
    };
    let mut out = owned("complete -c ");
    out.append(app);
    out.append(" -l ");
    out.append(sp.long.as_str());
    out.append(" ");
    out.append(short.as_str());
    out.append(" -d '");
    out.append(sp.desc.as_str());
    out.append("' ");
    let a = fish_args_exec(app, sp);
    out.append(a.as_str());
    out.append("\n");
    out
}

fn fish_script_exec(app: &str, specs: &Vec<CompletionSpec>) -> (r: String)
    ensures
        r@ == fish_script(app@, specs@),
{
    let mut out = owned("complete -c ");
    out.append(app);
    out.append(" -l help    -d 'Print help'\n");
    out.append("complete -c ");
    out.append(app);
    out.append(" -l version -d 'Print version'\n");
    out.append("complete -c ");
    out.append(app);
    out.append(" -l completions -r -a 'bash zsh fish' -d 'Generate shell completions'\n");
    let ghost head = out@;
    let mut i: usize = 0;
    proof {
        assert(head + fish_lines(app@, specs@, 0) =~= head);
    }
    while i < specs.len()
        invariant
            0 <= i <= specs@.len(),
            out@ == head + fish_lines(app@, specs@, i as int),
        decreases specs@.len() - i,
    {
        let l = fish_line_exec(app, &specs[i]);
        out.append(l.as_str());
        proof {
            assert(out@ =~= head + fish_lines(app@, specs@, i + 1));
        }
        i += 1;
    }
    out
}

/// The completion script for `shell` (see [`completion_text`]).
pub fn completion_script(shell: &str, app: &str, specs: &Vec<CompletionSpec>) -> (r: Result<String, String>)
    ensures
        match r {
            Ok(t) => completion_text(shell@, app@, specs@) == Ok::<Seq<char>, Seq<char>>(t@),
            Err(m) => completion_text(shell@, app@, specs@) == Err::<Seq<char>, Seq<char>>(m@),
        },
{
    if str_eq(shell, "bash") {
        Ok(bash_script_exec(app, specs))
    } else if str_eq(shell, "zsh") {
        Ok(zsh_script_exec(app, specs))
    } else if str_eq(shell, "fish") {
        Ok(fish_script_exec(app, specs))
    } else {
        let mut m = owned("unknown shell: `");
        m.append(shell);
        m.append("`. Supported: bash, zsh, fish");
        Err(m)
    }
}

// ── inside a command's scripts ───────────────────────────────────────────────

/// The specs of a subcommand's `_arguments` block: `--help`, then each
/// flag's among the first `n`.
pub open spec fn zsh_inner_specs(cmd: Seq<char>, specs: Seq<CompletionSpec>, n: int) -> Seq<Seq<char>>
    decreases n,
{
    if n <= 0 {
        seq!["'--help[Print help]'"@]
    } else {
        zsh_inner_specs(cmd, specs, n - 1).push(zsh_spec(cmd, specs[n - 1]))
    }
}

/// A subcommand's `_arguments` block inside a command's zsh script.
pub open spec fn zsh_inner(cmd: Seq<char>, specs: Seq<CompletionSpec>) -> Seq<char> {
    "    _arguments \\\n"@ + "        "@ + joined(
        zsh_inner_specs(cmd, specs, specs.len() as int),
        " \\\n        "@,
    ) + "\n"@
}

/// The fish arguments of a subcommand's flag.
pub open spec fn fish_sub_args(app: Seq<char>, sp: CompletionSpec) -> Seq<char> {
    if sp.is_bool {
        Seq::empty()
    } else {
        match sp.kind {
            CompletionKind::Static(v) => "-r -a '"@ + joined(strs(v@), " "@) + "'"@,
            CompletionKind::FilesExt(_, _) => "-r -F"@,
            CompletionKind::Files => "-r -F"@,
            CompletionKind::Dirs => "-r -a '(__fish_complete_directories (commandline -ct))'"@,
            _ => "-r -a '("@ + app + " --complete "@ + long_flag(sp) + " (commandline -ct) 2>/dev/null)'"@,
        }
    }
}

/// A subcommand's flag line inside a command's fish script.
pub open spec fn fish_sub_line(app: Seq<char>, name: Seq<char>, sp: CompletionSpec) -> Seq<char> {
    let short = match sp.short {
        Some(c) => "-s "@ + seq![c] + " "@,
        None => Seq::empty(),
    };
    "complete -c "@ + app + " -l "@ + sp.long@ + " "@ + short + " -d '"@ + sp.desc@ + "' "@
        + fish_sub_args(app, sp) + " --condition '__fish_seen_subcommand_from "@ + name + "'\n"@
}

pub open spec fn fish_sub_lines(app: Seq<char>, name: Seq<char>, specs: Seq<CompletionSpec>, n: int) -> Seq<char>
    decreases n,
{
    if n <= 0 {
        Seq::empty()
    } else {
        fish_sub_lines(app, name, specs, n - 1) + fish_sub_line(app, name, specs[n - 1])
    }
}

/// What a completion tag handed down by a command asks of an option
/// struct.
pub enum TagAnswer {
    /// Print the candidates of flag `.0` for the word `.1`.
    Candidates(usize, String),
    /// Print nothing.
    NoCandidates,
    /// Print this text.
    Text(String),
    /// Not a tag (a shell name).
    NotATag,
}

pub enum TagV {
    Candidates(usize, Seq<char>),
    NoCandidates,
    Text(Seq<char>),
    NotATag,
}

pub open spec fn tag_view(t: TagAnswer) -> TagV {
    match t {
        TagAnswer::Candidates(i, w) => TagV::Candidates(i, w@),
        TagAnswer::NoCandidates => TagV::NoCandidates,
        TagAnswer::Text(x) => TagV::Text(x@),
        TagAnswer::NotATag => TagV::NotATag,
    }
}

/// `p` up to its first space (all of it without one).
pub open spec fn before_space(p: Seq<char>) -> Seq<char> {
    let k = crate::args::first_char_from(p, ' ', 0);
    if k < 0 {
        p
    } else {
        p.take(k)
    }
}

/// `p` after its first space (nothing without one).
pub open spec fn after_space(p: Seq<char>) -> Seq<char> {
    let k = crate::args::first_char_from(p, ' ', 0);
    if k < 0 {
        Seq::empty()
    } else {
        p.skip(k + 1)
    }
}

/// The answer to a tag:
/// - `complete:<flag> <word>`: the candidates of the flag for the word;
/// - `fish-subcmd:<name>`: the flags' fish lines under subcommand `name`;
/// - `zsh-inner:<parent> <sub>`: the flags' `_arguments` block, whose
///   candidates come from `<parent> --complete <sub>`.
pub open spec fn tag_answer(tag: Seq<char>, app: Seq<char>, specs: Seq<CompletionSpec>) -> TagV {
    if crate::strutil::has_prefix(tag, "complete:"@) {
        let p = tag.skip("complete:"@.len() as int);
        match flag_for(specs, before_space(p), 0) {
            Some(i) => TagV::Candidates(i, after_space(p)),
            None => TagV::NoCandidates,
        }
    } else if crate::strutil::has_prefix(tag, "fish-subcmd:"@) {
        let name = tag.skip("fish-subcmd:"@.len() as int);
        TagV::Text(fish_sub_lines(app, name, specs, specs.len() as int))
    } else if crate::strutil::has_prefix(tag, "zsh-inner:"@) {
        let p = tag.skip("zsh-inner:"@.len() as int);
        let parent = before_space(p);
        let sub = after_space(p);
        let cmd = if sub.len() == 0 {
            parent + " --complete"@
        } else {
            parent + " --complete "@ + sub
        };
        TagV::Text(zsh_inner(cmd, specs))
    } else {
        TagV::NotATag
    }
}

fn split_space(p: &Vec<char>) -> (r: (String, String))
    ensures
        r.0@ == before_space(p@),
        r.1@ == after_space(p@),
{
    let mut k: usize = 0;
    while k < p.len()
        invariant
            0 <= k <= p@.len(),
            crate::args::first_char_from(p@, ' ', 0) == crate::args::first_char_from(p@, ' ', k as int),
        decreases p@.len() - k,
    {
        if p[k] == ' ' {
            let a = crate::strutil::string_of_range(p, 0, k);
            let b = crate::strutil::string_of_range(p, k + 1, p.len());
            proof {
                assert(p@.subrange(0, k as int) =~= p@.take(k as int));
                assert(p@.subrange(k + 1, p@.len() as int) =~= p@.skip(k + 1));
            }
            return (a, b);
        }
        k += 1;
    }
    let a = crate::strutil::string_of(p);
    (a, String::new())
}

fn after_prefix(tag: &str, pre: &str) -> (r: Vec<char>)
    requires
        crate::strutil::has_prefix(tag@, pre@),
    ensures
        r@ == tag@.skip(pre@.len() as int),
{
    let v = crate::strutil::chars_of(tag);
    let pv = crate::strutil::chars_of(pre);
    let mut out: Vec<char> = Vec::new();
    let mut i = pv.len();
    while i < v.len()
        invariant
            v@ == tag@,
            pv@ == pre@,
            pv@.len() <= i <= v@.len(),
            out@ == tag@.subrange(pre@.len() as int, i as int),
        decreases v@.len() - i,
    {
        out.push(v[i]);
        proof {
            assert(out@ =~= tag@.subrange(pre@.len() as int, i + 1));
        }
        i += 1;
    }
    proof {
        assert(tag@.subrange(pre@.len() as int, tag@.len() as int) =~= tag@.skip(pre@.len() as int));
    }
    out
}

fn fish_sub_args_exec(app: &str, sp: &CompletionSpec) -> (r: String)
    ensures
        r@ == fish_sub_args(app@, *sp),
{
    if sp.is_bool {
        return String::new();
    }
    match &sp.kind {
        CompletionKind::Static(v) => {
            let mut out = owned("-r -a '");
            let j = crate::strutil::join(v, " ");
            out.append(j.as_str());
            out.append("'");
            out
        },
        CompletionKind::FilesExt(_, _) => owned("-r -F"),
        CompletionKind::Files => owned("-r -F"),
        CompletionKind::Dirs => owned("-r -a '(__fish_complete_directories (commandline -ct))'"),
        _ => {
            let mut out = owned("-r -a '(");
            out.append(app);
            out.append(" --complete ");
            let f = long_flag_exec(sp);
            out.append(f.as_str());
            out.append(" (commandline -ct) 2>/dev/null)'");
            out
        },
    }
}

fn fish_sub_lines_exec(app: &str, name: &str, specs: &Vec<CompletionSpec>) -> (r: String)
    ensures
        r@ == fish_sub_lines(app@, name@, specs@, specs@.len() as int),
{
    let mut out = String::new();
    let mut i: usize = 0;
    while i < specs.len()
        invariant
            0 <= i <= specs@.len(),
            out@ == fish_sub_lines(app@, name@, specs@, i as int),
        decreases specs@.len() - i,
    {
        let sp = &specs[i];
        let short = match sp.short {
            Some(c) => {
                let mut s = owned("-s ");
                push_char(&mut s, c);
                s.append(" ");
                proof {
                    assert(s@ =~= "-s "@ + seq![c] + " "@);
                }
                s
            },
            None => String::new(),
        };
        let mut line = owned("complete -c ");
        line.append(app);
        line.append(" -l ");
        line.append(sp.long.as_str());
        line.append(" ");
        line.append(short.as_str());
        line.append(" -d '");
        line.append(sp.desc.as_str());
        line.append("' ");
        let a = fish_sub_args_exec(app, sp);
        line.append(a.as_str());
        line.append(" --condition '__fish_seen_subcommand_from ");
        line.append(name);
        line.append("'\n");
        out.append(line.as_str());
        i += 1;
    }
    out
}

fn zsh_inner_exec(cmd: &str, specs: &Vec<CompletionSpec>) -> (r: String)
    ensures
        r@ == zsh_inner(cmd@, specs@),
{
    let mut parts: Vec<String> = Vec::new();
    parts.push(owned("'--help[Print help]'"));
    proof {
        assert(strs(parts@) =~= zsh_inner_specs(cmd@, specs@, 0));
    }
    let mut i: usize = 0;
    while i < specs.len()
        invariant
            0 <= i <= specs@.len(),
            strs(parts@) == zsh_inner_specs(cmd@, specs@, i as int),
        decreases specs@.len() - i,
    {
        let ghost prev = strs(parts@);
        let z = zsh_spec_exec(cmd, &specs[i]);
        parts.push(z);
        proof {
            assert(strs(parts@) =~= prev.push(zsh_spec(cmd@, specs@[i as int])));
        }
        i += 1;
    }
    let mut out = owned("    _arguments \\\n");
    out.append("        ");
    let j = crate::strutil::join(&parts, " \\\n        ");
    out.append(j.as_str());
    out.append("\n");
    out
}

/// Answer a completion tag handed down by a command (see [`tag_answer`]).
pub fn completion_tag(tag: &str, app: &str, specs: &Vec<CompletionSpec>) -> (r: TagAnswer)
    ensures
        tag_view(r) == tag_answer(tag@, app@, specs@),
{
    if crate::strutil::starts_with_exec(tag, "complete:") {
        let p = after_prefix(tag, "complete:");
        let (flag, word) = split_space(&p);
        match completion_for_flag(specs, flag.as_str()) {
            Some(i) => TagAnswer::Candidates(i, word),
            None => TagAnswer::NoCandidates,
        }
    } else if crate::strutil::starts_with_exec(tag, "fish-subcmd:") {
        let p = after_prefix(tag, "fish-subcmd:");
        let name = crate::strutil::string_of(&p);
        TagAnswer::Text(fish_sub_lines_exec(app, name.as_str(), specs))
    } else if crate::strutil::starts_with_exec(tag, "zsh-inner:") {
        let p = after_prefix(tag, "zsh-inner:");
        let (parent, sub) = split_space(&p);
        let mut cmd = parent.clone();
        if crate::strutil::chars_of(sub.as_str()).len() == 0 {
            cmd.append(" --complete");
        } else {
            cmd.append(" --complete ");
            cmd.append(sub.as_str());
        }
        TagAnswer::Text(zsh_inner_exec(cmd.as_str(), specs))
    } else {
        TagAnswer::NotATag
    }
}

} // verus!

//! Shell completion scripts of a command tree: the subcommand names, and
//! each subcommand's own completion handed over to it.

use vstd::prelude::*;
use crate::args::strs;
use crate::dispatch::{all_names, CmdSpec};
use crate::strutil::{joined, owned, str_eq};

verus! {

broadcast use vstd::string::group_string_axioms;

/// A subcommand's names for a `case` pattern: its name and aliases,
/// separated by `|`.
pub open spec fn case_pattern(c: CmdSpec) -> Seq<char> {
    joined(seq![c.name@] + strs(c.aliases@), "|"@)
}

/// The bash case arms of the first `n` subcommands: a subcommand with
/// options completes through `--complete <name>`, one without offers
/// nothing.
pub open spec fn bash_cmd_cases(app: Seq<char>, cmds: Seq<CmdSpec>, n: int) -> Seq<char>
    decreases n,
{
    if n <= 0 {
        Seq::empty()
    } else {
        let c = cmds[n - 1];
        bash_cmd_cases(app, cmds, n - 1) + if c.has_options {
            "        "@ + case_pattern(c) + ")\n            COMPREPLY=($("@ + app + " --complete "@ + c.name@
                + " \"$cur\" 2>/dev/null))\n            ;;\n"@
        } else {
            "        "@ + case_pattern(c) + ")\n            COMPREPLY=()\n            ;;\n"@
        }
    }
}

/// The bash script of a command tree.
pub open spec fn bash_cmd_script(app: Seq<char>, cmds: Seq<CmdSpec>) -> Seq<char> {
    let names = all_names(cmds, cmds.len() as int);
    "_"@ + app + "() {\n    local cur prev subcmd opts\n    cur=\"${COMP_WORDS[COMP_CWORD]}\"\n    prev=\"${COMP_WORDS[COMP_CWORD-1]}\"\n    opts=\""@ + joined(names, " "@) + " --help --version --completions\"\n\n    # Find which subcommand (if any) is already on the line\n    subcmd=\"\"\n    for word in \"${COMP_WORDS[@]}\"; do\n        case \"$word\" in\n            "@ + joined(names, "|"@) + ")\n                subcmd=\"$word\"\n                break\n                ;;\n        esac\n    done\n\n    if [[ -z \"$subcmd\" ]]; then\n        # No subcommand yet — complete subcommand names + global flags\n        COMPREPLY=($(compgen -W \"$opts\" -- \"$cur\"))\n        return\n    fi\n\n    # Subcommand known — delegate flag completion to --complete protocol\n    case \"$subcmd\" in\n"@ + bash_cmd_cases(app, cmds, cmds.len() as int) + "        *)\n            COMPREPLY=($(compgen -W \"--help\" -- \"$cur\"))\n            ;;\n    esac\n}\ncomplete -F _"@ + app + " "@ + app + "\n"@
}

/// The zsh dispatch lines of the first `n` subcommands.
pub open spec fn zsh_dispatch(app: Seq<char>, cmds: Seq<CmdSpec>, n: int) -> Seq<char>
    decreases n,
{
    if n <= 0 {
        Seq::empty()
    } else {
        zsh_dispatch(app, cmds, n - 1) + "                "@ + case_pattern(cmds[n - 1]) + ") _"@ + app
            + "_"@ + cmds[n - 1].name@ + " ;;\n"@
    }
}

/// `name:about` of the first `n` subcommands.
pub open spec fn cmd_lines(cmds: Seq<CmdSpec>, n: int) -> Seq<Seq<char>>
    decreases n,
{
    if n <= 0 {
        Seq::empty()
    } else {
        cmd_lines(cmds, n - 1).push(cmds[n - 1].name@ + ":"@ + cmds[n - 1].about@)
    }
}

/// The zsh functions of the first `n` subcommands with options, around
/// the blocks they hand back (`inner`).
pub open spec fn zsh_functions(app: Seq<char>, cmds: Seq<CmdSpec>, inner: Seq<Seq<char>>, n: int) -> Seq<char>
    decreases n,
{
    if n <= 0 {
        Seq::empty()
    } else {
        zsh_functions(app, cmds, inner, n - 1) + if cmds[n - 1].has_options {
            "_"@ + app + "_"@ + cmds[n - 1].name@ + "() {\n"@ + inner[n - 1] + "}\n"@
        } else {
            Seq::empty()
        }
    }
}

/// The zsh script of a command tree.
pub open spec fn zsh_cmd_script(app: Seq<char>, cmds: Seq<CmdSpec>, inner: Seq<Seq<char>>) -> Seq<char> {
    zsh_functions(app, cmds, inner, cmds.len() as int) + "#compdef "@ + app + "\n\n_"@ + app + "() {\n    local state\n\n    _arguments \\\n        '--help[Print help]' \\\n        '--version[Print version]' \\\n        '--completions[Generate completions]:shell:(bash zsh fish)' \\\n        ': :_"@ + app + "_commands' \\\n        '*:: :->subcmd'\n\n    case $state in\n        subcmd)\n            case $words[1] in\n"@ + zsh_dispatch(app, cmds, cmds.len() as int) + "            esac\n            ;;\n    esac\n}\n\n_"@ + app + "_commands() {\n    local -a cmds\n    cmds=(\n        "@ + joined(cmd_lines(cmds, cmds.len() as int), "\n        "@) + "\n    )\n    _describe 'command' cmds\n}\n\ncompdef _"@ + app + " "@ + app + "\n"@ + "\n"@
}

/// The fish lines that offer the first `n` subcommands.
pub open spec fn fish_cmd_lines(app: Seq<char>, cmds: Seq<CmdSpec>, n: int) -> Seq<char>
    decreases n,
{
    if n <= 0 {
        Seq::empty()
    } else {
        fish_cmd_lines(app, cmds, n - 1) + "complete -c "@ + app + " -f -n '__fish_use_subcommand' -a "@
            + cmds[n - 1].name@ + " -d '"@ + cmds[n - 1].about@ + "'\n"@
    }
}

/// The lines handed back by the first `n` subcommands with options.
pub open spec fn fish_inner(cmds: Seq<CmdSpec>, inner: Seq<Seq<char>>, n: int) -> Seq<char>
    decreases n,
{
    if n <= 0 {
        Seq::empty()
    } else {
        fish_inner(cmds, inner, n - 1) + if cmds[n - 1].has_options {
            inner[n - 1]
        } else {
            Seq::empty()
        }
    }
}

/// The fish script of a command tree.
pub open spec fn fish_cmd_script(app: Seq<char>, cmds: Seq<CmdSpec>, inner: Seq<Seq<char>>) -> Seq<char> {
    "complete -c "@ + app + " -f\n"@ + "complete -c "@ + app + " -l help    -d 'Print help'\n"@
        + "complete -c "@ + app + " -l version -d 'Print version'\n"@ + "complete -c "@ + app
        + " -l completions -r -a 'bash zsh fish' -d 'Generate completions'\n"@ + fish_cmd_lines(
        app,
        cmds,
        cmds.len() as int,
    ) + fish_inner(cmds, inner, cmds.len() as int)
}

/// The completion script of a command tree for `shell`; `inner[m]` is
/// what subcommand `m` hands back for the shell's tag (its zsh
/// `_arguments` block or its fish lines).
pub open spec fn command_script_text(
    shell: Seq<char>,
    app: Seq<char>,
    cmds: Seq<CmdSpec>,
    inner: Seq<Seq<char>>,
) -> Result<Seq<char>, Seq<char>> {
    if shell == "bash"@ {
        Ok(bash_cmd_script(app, cmds))
    } else if shell == "zsh"@ {
        Ok(zsh_cmd_script(app, cmds, inner))
    } else if shell == "fish"@ {
        Ok(fish_cmd_script(app, cmds, inner))
    } else {
        Err("unknown shell: `"@ + shell + "`. Supported: bash, zsh, fish"@)
    }
}

fn case_pattern_exec(c: &CmdSpec) -> (r: String)
    ensures
        r@ == case_pattern(*c),
{
    let mut all: Vec<String> = Vec::new();
    all.push(c.name.clone());
    let mut k: usize = 0;
    while k < c.aliases.len()
        invariant
            0 <= k <= c.aliases@.len(),
            strs(all@) == seq![c.name@] + strs(c.aliases@).take(k as int),
        decreases c.aliases@.len() - k,
    {
        let ghost prev = all@;
        all.push(c.aliases[k].clone());
        proof {
            assert(strs(all@) =~= strs(prev).push(c.aliases@[k as int]@));
            assert(strs(all@) =~= seq![c.name@] + strs(c.aliases@).take(k + 1));
        }
        k += 1;
    }
    proof {
        assert(strs(c.aliases@).take(c.aliases@.len() as int) =~= strs(c.aliases@));
    }
    crate::strutil::join(&all, "|")
}

fn names_exec(cmds: &Vec<CmdSpec>) -> (r: Vec<String>)
    ensures
        strs(r@) == all_names(cmds@, cmds@.len() as int),
{
    let mut all: Vec<String> = Vec::new();
    let mut m: usize = 0;
    while m < cmds.len()
        invariant
            0 <= m <= cmds@.len(),
            strs(all@) == all_names(cmds@, m as int),
        decreases cmds@.len() - m,
    {
        let ghost prev = strs(all@);
        let ghost before0 = all@;
        all.push(cmds[m].name.clone());
        proof {
            assert(strs(all@) =~= strs(before0).push(cmds@[m as int].name@));
        }
        let al = &cmds[m].aliases;
        let mut k: usize = 0;
        proof {
            assert(strs(al@).take(0) =~= Seq::<Seq<char>>::empty());
        }
        while k < al.len()
            invariant
                0 <= k <= al@.len(),
                m < cmds@.len(),
                prev == all_names(cmds@, m as int),
                al@ == cmds@[m as int].aliases@,
                strs(all@) == prev + seq![cmds@[m as int].name@] + strs(al@).take(k as int),
            decreases al@.len() - k,
        {
            let ghost before = all@;
            all.push(al[k].clone());
            proof {
                assert(strs(all@) =~= strs(before).push(al@[k as int]@));
                assert(strs(all@) =~= prev + seq![cmds@[m as int].name@] + strs(al@).take(k + 1));
            }
            k += 1;
        }
        proof {
            assert(strs(al@).take(al@.len() as int) =~= strs(al@));
        }
        m += 1;
    }
    all
}

fn bash_cmd_script_exec(app: &str, cmds: &Vec<CmdSpec>) -> (r: String)
    ensures
        r@ == bash_cmd_script(app@, cmds@),
{
    let names = names_exec(cmds);
    let j1 = crate::strutil::join(&names, " ");
    let j2 = crate::strutil::join(&names, "|");
    let mut out = String::new();
    out.append("_");
    out.append(app);
    out.append("() {\n    local cur prev subcmd opts\n    cur=\"${COMP_WORDS[COMP_CWORD]}\"\n    prev=\"${COMP_WORDS[COMP_CWORD-1]}\"\n    opts=\"");
    out.append(j1.as_str());
    out.append(" --help --version --completions\"\n\n    # Find which subcommand (if any) is already on the line\n    subcmd=\"\"\n    for word in \"${COMP_WORDS[@]}\"; do\n        case \"$word\" in\n            ");
    out.append(j2.as_str());
    out.append(")\n                subcmd=\"$word\"\n                break\n                ;;\n        esac\n    done\n\n    if [[ -z \"$subcmd\" ]]; then\n        # No subcommand yet — complete subcommand names + global flags\n        COMPREPLY=($(compgen -W \"$opts\" -- \"$cur\"))\n        return\n    fi\n\n    # Subcommand known — delegate flag completion to --complete protocol\n    case \"$subcmd\" in\n");
    let ghost head = out@;
    let mut m: usize = 0;
    while m < cmds.len()
        invariant
            0 <= m <= cmds@.len(),
            out@ == head + bash_cmd_cases(app@, cmds@, m as int),
        decreases cmds@.len() - m,
    {
        let c = &cmds[m];
        let p = case_pattern_exec(c);
        let mut arm = owned("        ");
        arm.append(p.as_str());
        if c.has_options {
            arm.append(")\n            COMPREPLY=($(");
            arm.append(app);
            arm.append(" --complete ");
            arm.append(c.name.as_str());
            arm.append(" \"$cur\" 2>/dev/null))\n            ;;\n");
        } else {
            arm.append(")\n            COMPREPLY=()\n            ;;\n");
        }
        out.append(arm.as_str());
        proof {
            assert(out@ =~= head + bash_cmd_cases(app@, cmds@, m + 1));
        }
        m += 1;
    }
    out.append("        *)\n            COMPREPLY=($(compgen -W \"--help\" -- \"$cur\"))\n            ;;\n    esac\n}\ncomplete -F _");
    out.append(app);
    out.append(" ");
    out.append(app);
    out.append("\n");
    proof {
        assert(out@ =~= bash_cmd_script(app@, cmds@));
    }
    out
}

fn zsh_cmd_script_exec(app: &str, cmds: &Vec<CmdSpec>, inner: &Vec<String>) -> (r: String)
    requires
        inner@.len() == cmds@.len(),
    ensures
        r@ == zsh_cmd_script(app@, cmds@, strs(inner@)),
{
    let mut out = String::new();
    let mut m: usize = 0;
    while m < cmds.len()
        invariant
            0 <= m <= cmds@.len(),
            inner@.len() == cmds@.len(),
            out@ == zsh_functions(app@, cmds@, strs(inner@), m as int),
        decreases cmds@.len() - m,
    {
        if cmds[m].has_options {
            out.append("_");
            out.append(app);
            out.append("_");
            out.append(cmds[m].name.as_str());
            out.append("() {\n");
            out.append(inner[m].as_str());
            out.append("}\n");
        }
        proof {
            assert(strs(inner@)[m as int] == inner@[m as int]@);
            assert(out@ =~= zsh_functions(app@, cmds@, strs(inner@), m + 1));
        }
        m += 1;
    }
    let mut disp = String::new();
    let mut lines: Vec<String> = Vec::new();
    let mut k: usize = 0;
    while k < cmds.len()
        invariant
            0 <= k <= cmds@.len(),
            disp@ == zsh_dispatch(app@, cmds@, k as int),
            strs(lines@) == cmd_lines(cmds@, k as int),
        decreases cmds@.len() - k,
    {
        let p = case_pattern_exec(&cmds[k]);
        disp.append("                ");
        disp.append(p.as_str());
        disp.append(") _");
        disp.append(app);
        disp.append("_");
        disp.append(cmds[k].name.as_str());
        disp.append(" ;;\n");
        let mut l = cmds[k].name.clone();
        l.append(":");
        l.append(cmds[k].about.as_str());
        let ghost prev = lines@;
        lines.push(l);
        proof {
            assert(strs(lines@) =~= strs(prev).push(cmds@[k as int].name@ + ":"@ + cmds@[k as int].about@));
            assert(disp@ =~= zsh_dispatch(app@, cmds@, k + 1));
        }
        k += 1;
    }
    let sp = crate::strutil::join(&lines, "\n        ");
    out.append("#compdef ");
    out.append(app);
    out.append("\n\n_");
    out.append(app);
    out.append("() {\n    local state\n\n    _arguments \\\n        '--help[Print help]' \\\n        '--version[Print version]' \\\n        '--completions[Generate completions]:shell:(bash zsh fish)' \\\n        ': :_");
    out.append(app);
    out.append("_commands' \\\n        '*:: :->subcmd'\n\n    case $state in\n        subcmd)\n            case $words[1] in\n");
    out.append(disp.as_str());
    out.append("            esac\n            ;;\n    esac\n}\n\n_");
    out.append(app);
    out.append("_commands() {\n    local -a cmds\n    cmds=(\n        ");
    out.append(sp.as_str());
    out.append("\n    )\n    _describe 'command' cmds\n}\n\ncompdef _");
    out.append(app);
    out.append(" ");
    out.append(app);
    out.append("\n");
    out.append("\n");
    proof {
        assert(out@ =~= zsh_cmd_script(app@, cmds@, strs(inner@)));
    }
    out
}

fn fish_cmd_script_exec(app: &str, cmds: &Vec<CmdSpec>, inner: &Vec<String>) -> (r: String)
    requires
        inner@.len() == cmds@.len(),
    ensures
        r@ == fish_cmd_script(app@, cmds@, strs(inner@)),
{
    let mut out = owned("complete -c ");
    out.append(app);
    out.append(" -f\n");
    out.append("complete -c ");
    out.append(app);
    out.append(" -l help    -d 'Print help'\n");
    out.append("complete -c ");
    out.append(app);
    out.append(" -l version -d 'Print version'\n");
    out.append("complete -c ");
    out.append(app);
    out.append(" -l completions -r -a 'bash zsh fish' -d 'Generate completions'\n");
    let ghost head = out@;
    let mut m: usize = 0;
    proof {
        assert(head + fish_cmd_lines(app@, cmds@, 0) =~= head);
    }
    while m < cmds.len()
        invariant
            0 <= m <= cmds@.len(),
            out@ == head + fish_cmd_lines(app@, cmds@, m as int),
        decreases cmds@.len() - m,
    {
        out.append("complete -c ");
        out.append(app);
        out.append(" -f -n '__fish_use_subcommand' -a ");
        out.append(cmds[m].name.as_str());
        out.append(" -d '");
        out.append(cmds[m].about.as_str());
        out.append("'\n");
        proof {
            assert(out@ =~= head + fish_cmd_lines(app@, cmds@, m + 1));
        }
        m += 1;
    }
    let ghost head2 = out@;
    let mut k: usize = 0;
    proof {
        assert(head2 + fish_inner(cmds@, strs(inner@), 0) =~= head2);
    }
    while k < cmds.len()
        invariant
            0 <= k <= cmds@.len(),
            inner@.len() == cmds@.len(),
            out@ == head2 + fish_inner(cmds@, strs(inner@), k as int),
        decreases cmds@.len() - k,
    {
        if cmds[k].has_options {
            out.append(inner[k].as_str());
        }
        proof {
            assert(strs(inner@)[k as int] == inner@[k as int]@);
            assert(out@ =~= head2 + fish_inner(cmds@, strs(inner@), k + 1));
        }
        k += 1;
    }
    out
}

/// The completion script of a command tree (see [`command_script_text`]).
pub fn command_script(shell: &str, app: &str, cmds: &Vec<CmdSpec>, inner: &Vec<String>) -> (r: Result<String, String>)
    requires
        inner@.len() == cmds@.len(),
    ensures
        match r {
            Ok(t) => command_script_text(shell@, app@, cmds@, strs(inner@)) == Ok::<Seq<char>, Seq<char>>(t@),
            Err(m) => command_script_text(shell@, app@, cmds@, strs(inner@)) == Err::<Seq<char>, Seq<char>>(m@),
        },
{
    if str_eq(shell, "bash") {
        Ok(bash_cmd_script_exec(app, cmds))
    } else if str_eq(shell, "zsh") {
        Ok(zsh_cmd_script_exec(app, cmds, inner))
    } else if str_eq(shell, "fish") {
        Ok(fish_cmd_script_exec(app, cmds, inner))
    } else {
        let mut m = owned("unknown shell: `");
        m.append(shell);
        m.append("`. Supported: bash, zsh, fish");
        Err(m)
    }
}

} // verus!

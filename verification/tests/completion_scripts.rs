//! Completion kinds, `--complete` requests and the shell scripts of an
//! option struct.

use cli_ui::argcheck::ArgCheck;
use cli_ui::argcomplete::{completion_for_flag, completion_script, infer_completion, CompletionKind, CompletionSpec};

fn strings(v: &[&str]) -> Vec<String> {
    v.iter().map(|s| s.to_string()).collect()
}

fn flags() -> Vec<CompletionSpec> {
    vec![
        CompletionSpec {
            long: "format".to_string(),
            short: None,
            desc: "Output format".to_string(),
            is_bool: false,
            negatable: false,
            kind: CompletionKind::Static(strings(&["json", "csv"])),
        },
        CompletionSpec {
            long: "input".to_string(),
            short: None,
            desc: "Input file".to_string(),
            is_bool: false,
            negatable: false,
            kind: CompletionKind::FilesExt(strings(&["csv"]), false),
        },
        CompletionSpec {
            long: "out".to_string(),
            short: None,
            desc: "Out dir".to_string(),
            is_bool: false,
            negatable: false,
            kind: CompletionKind::Dirs,
        },
        CompletionSpec {
            long: "verbose".to_string(),
            short: Some('v'),
            desc: "Don't be quiet".to_string(),
            is_bool: true,
            negatable: true,
            kind: CompletionKind::NoValue,
        },
    ]
}

#[test]
fn completion_kind_from_checks_and_type() {
    let one = vec![ArgCheck::IsDir, ArgCheck::OneOf(strings(&["a"]))];
    assert_eq!(infer_completion(&one, false, true, false), CompletionKind::Static(strings(&["a"])));
    assert_eq!(infer_completion(&one, true, true, false), CompletionKind::Dynamic);
    let ext = vec![ArgCheck::Exists, ArgCheck::Ext(strings(&["rs"]))];
    assert_eq!(infer_completion(&ext, false, false, false), CompletionKind::FilesExt(strings(&["rs"]), true));
    assert_eq!(infer_completion(&ext, false, true, false), CompletionKind::FilesExt(strings(&["rs"]), false));
    let dir = vec![ArgCheck::Ext(strings(&["rs"])), ArgCheck::IsDir];
    assert_eq!(infer_completion(&dir, false, false, false), CompletionKind::Dirs);
    assert_eq!(infer_completion(&vec![ArgCheck::Glob("*.md".to_string())], false, false, false), CompletionKind::Glob("*.md".to_string()));
    assert_eq!(infer_completion(&vec![], false, true, false), CompletionKind::Files);
    assert_eq!(infer_completion(&vec![], false, false, true), CompletionKind::NoValue);
    assert_eq!(infer_completion(&vec![ArgCheck::MinLen(1)], false, false, false), CompletionKind::Word);
}

#[test]
fn complete_requests_find_their_flag() {
    assert_eq!(completion_for_flag(&flags(), "--input"), Some(1));
    assert_eq!(completion_for_flag(&flags(), "--verbose"), None);
    assert_eq!(completion_for_flag(&flags(), "-x"), None);
}

#[test]
fn bash_script() {
    let expected = [
        "_tool() {\n",
        "    local cur prev opts\n",
        "    cur=\"${COMP_WORDS[COMP_CWORD]}\"\n",
        "    prev=\"${COMP_WORDS[COMP_CWORD-1]}\"\n",
        "    opts=\"--help --version --completions --format --input --out --verbose --no-verbose\"\n",
        "\n",
        "    case \"$prev\" in\n",
        "        --format)\n",
        "            COMPREPLY=($(compgen -W \"json csv\" -- \"$cur\"))\n",
        "            ;;\n",
        "        --input)\n",
        "            COMPREPLY=($(tool --complete --input \"$cur\" 2>/dev/null))\n",
        "            ;;\n",
        "        --out)\n",
        "            COMPREPLY=($(tool --complete --out \"$cur\" 2>/dev/null))\n",
        "            ;;\n",
        "        --verbose)\n",
        "            COMPREPLY=()\n",
        "            ;;\n",
        "        *)\n",
        "            COMPREPLY=($(compgen -W \"$opts\" -- \"$cur\"))\n",
        "            ;;\n",
        "    esac\n",
        "}\n",
        "complete -F _tool tool\n",
    ]
    .concat();
    assert_eq!(completion_script("bash", "tool", &flags()).unwrap(), expected);
}

#[test]
fn zsh_script() {
    let expected = [
        "#compdef tool\n",
        "_tool() {\n",
        "    _arguments \\\n",
        "    '--help[Print help]' \\\n",
        "    '--version[Print version]' \\\n",
        "    '--completions[Generate completions]:shell:(bash zsh fish)' \\\n",
        "    '--format[Output format]: :(json csv)' \\\n",
        "    '--input[Input file]:file:_files -g \"*.csv\"' \\\n",
        "    '--out[Out dir]:dir:_files -/' \\\n",
        "    '--verbose[Don'\\''t be quiet]'\n",
        "}\n",
        "compdef _tool tool\n",
        "\n",
    ]
    .concat();
    assert_eq!(completion_script("zsh", "tool", &flags()).unwrap(), expected);
}

#[test]
fn fish_script() {
    let expected = [
        "complete -c tool -l help    -d 'Print help'\n",
        "complete -c tool -l version -d 'Print version'\n",
        "complete -c tool -l completions -r -a 'bash zsh fish' -d 'Generate shell completions'\n",
        "complete -c tool -l format  -d 'Output format' -r -a 'json csv'\n",
        "complete -c tool -l input  -d 'Input file' -r -F -a '(string match -r \"\\.(csv)$\" (commandline -ct) > /dev/null; and __fish_complete_path (commandline -ct))'\n",
        "complete -c tool -l out  -d 'Out dir' -r -a '(__fish_complete_directories (commandline -ct))'\n",
        "complete -c tool -l verbose -s v  -d 'Don't be quiet' \n",
    ]
    .concat();
    assert_eq!(completion_script("fish", "tool", &flags()).unwrap(), expected);
    assert_eq!(
        completion_script("tcsh", "tool", &flags()),
        Err("unknown shell: `tcsh`. Supported: bash, zsh, fish".to_string())
    );
}

use cli_ui::argcomplete::{completion_tag, TagAnswer};
use cli_ui::cmdcomplete::command_script;
use cli_ui::dispatch::CmdSpec;

fn cmds() -> Vec<CmdSpec> {
    vec![
        CmdSpec { name: "download".to_string(), aliases: strings(&["dl"]), about: "Download a file".to_string(), has_options: true },
        CmdSpec { name: "status".to_string(), aliases: Vec::new(), about: "Show status".to_string(), has_options: false },
    ]
}

fn out_flag() -> Vec<CompletionSpec> {
    vec![CompletionSpec {
        long: "out".to_string(),
        short: Some('o'),
        desc: "Output".to_string(),
        is_bool: false,
        negatable: false,
        kind: CompletionKind::Files,
    }]
}

fn text(a: TagAnswer) -> String {
    match a {
        TagAnswer::Text(t) => t,
        _ => panic!("expected a text"),
    }
}

#[test]
fn tags_handed_down_by_a_command() {
    match completion_tag("complete:--out dat", "tool", &out_flag()) {
        TagAnswer::Candidates(i, w) => {
            assert_eq!(i, 0);
            assert_eq!(w, "dat");
        }
        _ => panic!("expected candidates"),
    }
    match completion_tag("complete: ", "tool", &out_flag()) {
        TagAnswer::NoCandidates => {}
        _ => panic!("expected no candidates"),
    }
    assert_eq!(
        text(completion_tag("zsh-inner:tool download", "dl-opts", &out_flag())),
        "    _arguments \\\n        '--help[Print help]' \\\n        '--out[Output]:file:_files'\n"
    );
    assert_eq!(
        text(completion_tag("fish-subcmd:download", "tool", &out_flag())),
        "complete -c tool -l out -s o  -d 'Output' -r -F --condition '__fish_seen_subcommand_from download'\n"
    );
    match completion_tag("bash", "tool", &out_flag()) {
        TagAnswer::NotATag => {}
        _ => panic!("a shell name is not a tag"),
    }
}

#[test]
fn command_tree_bash_script() {
    let expected = [
        "_tool() {\n",
        "    local cur prev subcmd opts\n",
        "    cur=\"${COMP_WORDS[COMP_CWORD]}\"\n",
        "    prev=\"${COMP_WORDS[COMP_CWORD-1]}\"\n",
        "    opts=\"download dl status --help --version --completions\"\n",
        "\n",
        "    # Find which subcommand (if any) is already on the line\n",
        "    subcmd=\"\"\n",
        "    for word in \"${COMP_WORDS[@]}\"; do\n",
        "        case \"$word\" in\n",
        "            download|dl|status)\n",
        "                subcmd=\"$word\"\n",
        "                break\n",
        "                ;;\n",
        "        esac\n",
        "    done\n",
        "\n",
        "    if [[ -z \"$subcmd\" ]]; then\n",
        "        # No subcommand yet — complete subcommand names + global flags\n",
        "        COMPREPLY=($(compgen -W \"$opts\" -- \"$cur\"))\n",
        "        return\n",
        "    fi\n",
        "\n",
        "    # Subcommand known — delegate flag completion to --complete protocol\n",
        "    case \"$subcmd\" in\n",
        "        download|dl)\n",
        "            COMPREPLY=($(tool --complete download \"$cur\" 2>/dev/null))\n",
        "            ;;\n",
        "        status)\n",
        "            COMPREPLY=()\n",
        "            ;;\n",
        "        *)\n",
        "            COMPREPLY=($(compgen -W \"--help\" -- \"$cur\"))\n",
        "            ;;\n",
        "    esac\n",
        "}\n",
        "complete -F _tool tool\n",
    ]
    .concat();
    assert_eq!(command_script("bash", "tool", &cmds(), &vec![String::new(), String::new()]).unwrap(), expected);
}

#[test]
fn command_tree_zsh_and_fish_scripts() {
    let zsh_inner = text(completion_tag("zsh-inner:tool download", "download", &Vec::new()));
    let expected = [
        "_tool_download() {\n",
        "    _arguments \\\n",
        "        '--help[Print help]'\n",
        "}\n",
        "#compdef tool\n",
        "\n",
        "_tool() {\n",
        "    local state\n",
        "\n",
        "    _arguments \\\n",
        "        '--help[Print help]' \\\n",
        "        '--version[Print version]' \\\n",
        "        '--completions[Generate completions]:shell:(bash zsh fish)' \\\n",
        "        ': :_tool_commands' \\\n",
        "        '*:: :->subcmd'\n",
        "\n",
        "    case $state in\n",
        "        subcmd)\n",
        "            case $words[1] in\n",
        "                download|dl) _tool_download ;;\n",
        "                status) _tool_status ;;\n",
        "            esac\n",
        "            ;;\n",
        "    esac\n",
        "}\n",
        "\n",
        "_tool_commands() {\n",
        "    local -a cmds\n",
        "    cmds=(\n",
        "        download:Download a file\n",
        "        status:Show status\n",
        "    )\n",
        "    _describe 'command' cmds\n",
        "}\n",
        "\n",
        "compdef _tool tool\n",
        "\n",
    ]
    .concat();
    assert_eq!(command_script("zsh", "tool", &cmds(), &vec![zsh_inner, String::new()]).unwrap(), expected);

    let fish_inner = text(completion_tag("fish-subcmd:download", "tool", &out_flag()));
    let expected = [
        "complete -c tool -f\n",
        "complete -c tool -l help    -d 'Print help'\n",
        "complete -c tool -l version -d 'Print version'\n",
        "complete -c tool -l completions -r -a 'bash zsh fish' -d 'Generate completions'\n",
        "complete -c tool -f -n '__fish_use_subcommand' -a download -d 'Download a file'\n",
        "complete -c tool -f -n '__fish_use_subcommand' -a status -d 'Show status'\n",
        "complete -c tool -l out -s o  -d 'Output' -r -F --condition '__fish_seen_subcommand_from download'\n",
    ]
    .concat();
    assert_eq!(command_script("fish", "tool", &cmds(), &vec![fish_inner, String::new()]).unwrap(), expected);
    assert!(command_script("ksh", "tool", &cmds(), &vec![String::new(), String::new()]).is_err());
}

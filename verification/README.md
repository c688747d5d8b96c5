# cli_ui

Terminal UI building blocks for command-line tools, verified with Verus:
clack-style prompts (text, secret, confirm, select, multiselect,
grouped multiselect, autocomplete, key select, date, path, multiline),
framed logs and streams, boxes, spinners' frames, progress bars, task
logs, download progress lines, the summary block, help pages, command
suggestions, glob matching, shell-completion candidates and a library of
composable input rules; and typed option parsing run from a table of
argument specifications (flags, switches, positionals, defaults and the
constraints between options), subcommand dispatch, per-value checks,
option help sections and bash, zsh and fish completion scripts.

## Layout

- `src/` — the verified library. Every prompt is a state machine: `handle`
  takes one key and returns a `Step`, `render` returns the rows to draw,
  each with a contract over the prompt's view. Everything that is printed
  is computed here as strings or rows, with its exact text stated.
- `app/` — the terminal side: raw mode and key events (crossterm), the
  key loop, line fallbacks for pipes, the global settings, the spinner
  thread, printing, and the report macros. It calls the library for every
  row it prints and every decision it takes.
- `tests/` — the prompt snapshots and flows, the rows of every printer,
  calendar arithmetic, completion, validators and the key loop's
  decisions.

Styles are rendered with `anstyle`; the library states what a painted
string is in terms of the opening and reset codes of its style.

# agency

Bookkeeping for running coding agents on tasks: each task has a markdown
file, a git branch and worktree, attached files, and a tmux session in which
its agent runs. An interactive dashboard lists the tasks and starts, stops
and removes them.

## Layout

- `src/` is the library, written in Verus. Its functions carry contracts
  that the verifier checks (the small wrappers around outside calls,
  described below, are trusted instead). They cover how task files and
  names are read and written, how slugs are normalised and made unique,
  which files bootstrap a worktree, the git and tmux command lines, how
  tmux output and ANSI escape sequences are read, and the state machines of
  the dashboard (task table, command log, overlays, menus, dialogs, help bar
  and layout). Proof functions named `lemma_*` state the properties that
  span several functions, such as reading back what was written.
- `app/` is ordinary Rust around the library: the terminal, processes,
  files, git, tmux and the event loop. It hands the library plain values and
  carries out what the library decides.
- `tests/` runs the library on concrete values.

Calls into outside crates (`regex`, `owo-colors`, `shell-words`,
`anstyle-parse`) and a few std calls sit behind small wrappers marked
`external_body`. Verus takes their contracts on trust; each wrapper's doc
comment says what its contract claims of the outside code.

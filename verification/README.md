# agent_of_empires

The verified core of a terminal session manager for coding agents. The
library in `src/` holds the logic — worktree path templates and `.git`
file handling, container command lines and their output, process-tree
bookkeeping, the sandbox environment, sound selection, the config
migrations, the set-up of a new session (its directory, title, command,
worktree and sandbox), and the state machines behind the terminal dialogs (text
inputs, the directory picker, the diff view, the settings view and the
profile picker) — each function with a contract that Verus proves.

Work that Verus cannot see — reading directories and files, running
`git`, `ps`, the container runtime and the audio players, signalling
processes, TOML and JSON files, and the command-line forms of the
options — lives in `app/`, which gathers the inputs of the library's
functions and carries out their results.

The two editors (the single-line input and the instruction text area)
keep the editor objects of `tui-input` and `tui-textarea` inside the
library's types, so their cut text, undo history and selection live on
from key to key.

`tests/` runs the library on concrete values.

# syncbox

A directory synchronisation tool: one-off syncs, named tasks from a TOML
file, and a watch mode that syncs after each burst of changes, to local or
SSH targets.

- `src/` is the library, verified with Verus: exclusion rules, the scanner
  over a directory tree as read, sync and deletion planning, the sync run
  and the watch loop as state machines, reports, remote target parsing and
  the ssh/scp command lines. Calls into `regex`, `blake3`, `shell-escape`
  and `std::path` stand behind trusted wrappers whose contracts say what
  the library takes from them.
- `app/` is the command-line program around it: argument parsing, reading
  the configuration, file-system and process I/O, logging and progress
  display.
- `tests/` runs the library on concrete values.

# dqlite-utils

An observability tool for inspecting the on-disk state of a dqlite node: a shell whose
commands show the node's status, its raft log and configuration, build snapshots, and open a
point-in-time view of its databases. It never changes existing data.

## Layout

- `src/` is the library, verified with Verus: the commands and their parsing, the help
  texts, the shells and their prompts, the naming and classification of the files of a data
  directory, the text of the log and of the status reports, the checks and rewrites that build
  a snapshot, the guard on the snapshot shell's own schema, the point-in-time view's choice of
  entries and pages, and the flags of SQLite's VFS interface. Each public function states what
  it returns in its contract; the properties that span functions stand as public proof
  functions (`lemma_*`).
- `app/` is the program around it: argument parsing, the line editor, terminal styling, the
  SQLite connections and file I/O. Reading the raft log itself needs libdqlite's decoders, a
  C library this build does without: `.status`, `.log`, `.config` and `.open` (and writing a
  snapshot with `.finish`) report that, while `.help`, `.quit` and the snapshot shell's other
  commands run.
- `tests/` runs the library on concrete inputs.

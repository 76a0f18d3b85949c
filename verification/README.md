# unfudged

The verified core of UNFUDGED, a flight recorder for a project's files: it
records every version of every file, and lets its user list, compare, recap
and prune that history.

- `src/` is the library, written in Verus: session detection, grouping and
  paging of the history, density histograms, line diffs and state diffs,
  recaps and the git state they show, restore plans and their prompts,
  the prune gate and its reports, the project table, the watch
  settings, path filtering by glob, storage moves, status modes, auto-start
  entries, and the text of every report. Each public function carries a
  contract that Verus proves; the few calls into `chrono`, `similar`,
  `globset`, `dirs` and `std::path` go through small trusted wrappers whose
  contracts say what those crates document.
- `tests/` runs the library on concrete values.
- `app/` is a small `unf` program around the library. It drives the
  commands that need no history store: `config`, `config --move-storage`
  and `autostart`, with their files, processes and JSON. The commands that
  read the history (log, diff, list, recap, prune, restore, watch, status,
  cat, sessions) have their decisions and reports in `src/` but no driver
  here, since the store they read is not part of this project.

# daily_plan

The rules of a desktop to-do application for Windows, verified with Verus:

- `src/` — the library. Each module states its behaviour in `requires` /
  `ensures` contracts over mathematical models (`Seq`, `Map`, `int`), and
  Verus proves them.
  - `tasks`: stored colours, the recycle bin of tasks, reordering.
  - `timer`: count-down and scheduled timers, their status and the alarm.
  - `window`: snapping the main window to monitor edges, collapsing it into
    a line along the edge and expanding it again.
  - `desktop`, `downloads`, `organize`: analysing the desktop or a folder and
    the rules by which entries are sorted into sub-folders.
  - `duplicates`: grouping files by size and SHA-256 digest.
  - `clean`: the bookkeeping of a clean-up of temporary files.
  - `context_menu`, `snap_line`, `commands`, `text`: smaller pieces.
- `tests/` — tests of the library on concrete values.
- `app/` — the application around the library: the SQLite store, the file
  system, the Windows shell and registry, the clock, and the geometry of the
  windows in floating-point logical pixels.

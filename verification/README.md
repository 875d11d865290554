# CosmiCal

CosmiCal is a small COSMIC desktop utility for daily notes, a scratchpad and
quick clipboard snippets, summoned like a panel from a keyboard shortcut.

This crate holds its logic as a library whose behaviour is stated in
`requires` / `ensures` contracts and proved with Verus; `app/` is the program
around it (windowing, files, sockets, the system clipboard, window-manager
tools).

## Layout

- `src/commands.rs` — the commands one process hands another, their wire names
  and how a line of the wire is read back.
- `src/calendar.rs` — calendar days as plain numbers, the month arithmetic,
  the days and first weekday of a month, `YYYY-MM-DD` texts and reading a
  year and month back from one, and the law that each month starts on the
  weekday after the last day of the month before. Which days exist, their
  weekdays and their text come from `chrono`.
- `src/model.rs` — the saved data: day notes (one per date), the clipboard
  history (newest first, no repeats, at most 20 entries, none blank or over
  20 KB) and the pinned entries.
  Day notes are a `Vec` kept in strictly rising date order (a type invariant)
  rather than a `BTreeMap<String, String>`: vstd's specifications of
  `BTreeMap` hold only for key types shown to obey its ordering model
  (`obeys_cmp`), which vstd establishes for integers and tuples of them but
  not for `String`, so nothing about a map keyed by date texts could be
  proved.
- `src/app_state.rs` — what each event of the window does to the state, and
  when the data is saved (three idle save ticks after a change, or at once
  on a page switch).
- `src/views.rs` — what the pages show: the month grid, labels, the
  dashboard's clipboard lists.
- `src/launch.rs` — the command-line flags.
- `src/ipc.rs` — the single-instance socket: the text sent over it and the
  steps of starting up, forwarding commands and listening.
- `src/platform/` — session detection and the steps of a summon.
- `src/text.rs` — white space, trimming, words, lines, case-insensitive
  comparison, decimal text and truncation.
- `tests/` — tests of the library.
- `app/` — `main`, the `libcosmic` window, today's date (the clock and the
  system's time zone, `app/clock.rs`) and the I/O that the library's step
  functions ask for.

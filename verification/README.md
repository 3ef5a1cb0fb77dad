# mg-calr

A keyboard-first calendar for a local Linux workstation: calendars and events
in one SQLite file, bounded repeat rules expanded at read time, an iCalendar
reader, and a combined agenda that reads todos only from a validated,
immutable `mg.interop/1` projection produced by `mg-remindr`.

## Layout

- `src/` is the library, written in Verus. Its functions carry contracts,
  and the application's rules are proved against them: event times and
  repeat rules, the projection boundary and its replacement checks, the
  agenda's window and order, the iCalendar reader, configuration
  precedence, migration bookkeeping, the rows an edit, cancel or restore
  writes, and the keyboard shell's state machine. What a repository returns,
  what the clock reads and the random bits of an identifier are not
  proved: the use cases state what holds of every answer. Calls into
  `chrono`, `chrono-tz`, `uuid` and `sha2` stand behind small trusted
  wrappers whose doc comments say what each assumes.
- `tests/` runs the library on concrete values.
- `app/` is the program around the library: the command line, the SQLite
  store, the projection file with its advisory lock and atomic replacement,
  and the JSON wire forms. It hands the library plain values and takes plain
  values back.

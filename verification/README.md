# loglens

A small library, plus a command-line tool, that reads a log file once and
answers: how many lines of each level, how many lines don't parse as log
lines, and when the file's (filtered) entries start and end. Lines are
expected to start with a timestamp token followed by a level token:

```
2026-08-21T10:15:03Z INFO server started on port 8080
```

The library is written in Verus. Every function in `src/` carries a
contract that Verus proves, except `text::push_char`, whose one-line body
calls `String::push` and whose contract (the character is appended) is
taken on trust:

- `timestamp` reads RFC 3339 and Unix-epoch-seconds tokens as nanoseconds
  since the epoch, against a direct day count of the proleptic Gregorian
  calendar, and orders tokens chronologically (falling back to byte order).
- `entry`, `level`, `filter` parse lines and decide which entries a set of
  level, time-range and message filters keeps.
- `summary` aggregates lines into counts, a first/last span and the kept
  entries grouped by level; its proof functions state what holds of every
  summary (every line accounted for, filters only remove entries, unparsed
  lines ignore filters, ...).
- `json` renders entries and summaries as single-line JSON.
- `cli` holds the command-line tool's logic: argument and environment
  handling, the human-readable report, and the decisions of the follow mode.

`app/main.rs` is the tool itself: it reads files and the environment, polls
a followed file and prints what the library computes. `tests/` exercises
the library on concrete inputs.

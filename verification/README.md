# earnscore

A live-sports crawler and its persistence rules, with the logic written and
proved in Verus.

The crawler reads the live match list of a sports site through a browser
(Chrome DevTools protocol), keeps a local SQLite database of competitions,
teams, matches, match details, odds and image assets, and pushes changed rows
to a remote sync endpoint.

## Layout

- `src/` is the verified library.  The program's decisions, the JSON texts
  it stores and sends, and the parsing of stored JSON columns are functions
  here with `requires`/`ensures` contracts over mathematical models (`Seq`,
  `Map`, `Set`, `int`, and a view of each data type):
  - `text`, `json`: string helpers and a JSON value model with its canonical
    text and its parse (through `serde_json`); `digest`: MD5 and SHA-256
    through their crates.
  - `domain`: normalized feed events and their keys, the match state machine
    and admission rules, odds quotes and decimal normalization.
  - `feed`: the sport adapters' source contracts and the feed session's
    state, reconnect and watchdog decisions.
  - `crawler`: command-line values, list-page scripts, snapshot validation,
    row reconciliation, and the sync worker's lease, batch and backoff rules.
  - `detail`: detail sections, retry backoff and the extraction of section
    data and image candidates.
  - `assets`: image byte validation and content-addressed storage keys.
  - `storage`: event application, odds history, detail rows, the legacy
    conversion and backup verification.
  - `recovery`: reconciliation after a feed outage and versioned
    finalization of finished matches.
  Public proof functions state the laws that relate several operations (for
  example that a terminal match state never changes, that a replayed quote
  changes nothing, or that canonical JSON ignores member order).
- `tests/` runs the library on concrete values.
- `app/` is the program around the library: the command line, SQLite, HTTP,
  the browser connection (whose DevTools messages it decodes) and the worker
  loops.  It hands plain values to the library and performs what the library
  decides.

Outside crates are called from `src/` only through small trusted wrappers
whose doc comments say what their contracts assume.

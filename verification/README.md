# opaq

Command-line client for opaq, a self-hosted config and secret store.

- `src/` is the verified library (Verus): secret and scope paths, ttl parsing, URL
  building, credential profiles (which one a command uses, login, removal, migration
  of a single-credential file), the `env` merge (env-scoped values win over project-scoped ones), shell
  quoting, listing rows and their order, principal lookups and reports, the help
  cheatsheet and the documented command grammar. Each public function states its
  result in its contract; what `serde_json` makes of a JSON text (its validity, its
  indented and compact forms, its error message, a string member) is named by spec
  functions in `json.rs` rather than written out. Laws that relate several functions
  are public proof functions next to them.
- Maps keyed by text (the merged env variables, the saved profiles) are sorted `Vec`s
  with a `Map` model as their view. vstd specifies std's `BTreeMap` and `HashMap` well
  enough for integer keys, but gives nothing to prove with `String` keys, so the library
  keeps its own order (by code point, which is `String`'s order) and proves it.
- `app/` is the program: argument parsing (clap), the configuration file, HTTP
  requests (reqwest), and printing tables (comfy-table).
- `tests/` runs the library on concrete inputs.

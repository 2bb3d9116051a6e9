# bmo_search

A command-line client for Mozilla's Bugzilla (bugzilla.mozilla.org), built
around a library whose logic is verified with Verus.

- `src/` is the verified library:
  - `text.rs`: decimal numbers, joining, splitting at commas, trimming,
    escaping pipes for markdown, and the short forms of dates and addresses;
  - `status.rs`: the `--status` keywords (`open`, `closed`, `all`) and lists;
  - `chart.rs`: the numbered boolean-chart parameters (`f0`, `o0`, `v0`, ...);
  - `query.rs`: the query parameters and URLs of each command, and what is
    kept of the answers;
  - `render.rs` and `detail.rs`: the compact and markdown renderings of bug
    lists and of single bugs;
  - `laws.rs`: properties that hold for all inputs, stated and proved.
- `app/` is the program around it: argument parsing, HTTP requests, JSON
  (de)serialization and printing.
- `tests/` runs the library on concrete values.

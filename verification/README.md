# codeln

A source line counter: it walks a directory tree and reports, per file and
per language, how many lines are blank, comments or code, with filtering by
extension, directory and file name, a TOML configuration file and
command-line overrides, and text, JSON or CSV output.

## Layout

- `src/` is the verified library (Verus):
  - `counter.rs` classifies the lines of a file and holds the decisions of a
    walk (`Walk`): which entries are entered, which files are counted or
    reported as excluded, and how counts are grouped by language. A walk
    keeps a log of its decisions, and its results are proved to be what
    that log gives.
  - `filter.rs` is the include/exclude rule set (`FileFilter`).
  - `config.rs` holds the defaults, the merge of command-line options into
    a configuration, and its validation; `cli.rs` the command-line options.
  - `languages.rs` maps extensions to language names.
  - `path.rs` gives the file name, extension and relative display of a path.
  - `output.rs` selects the output format, renders the CSV report and orders
    the rows of the text report.
  - `table.rs` is a table keyed by strings in sorted order; `text.rs` holds
    character-level helpers (Unicode whitespace, trimming, ordering, sorting).
  - `init.rs` holds the `codeln.toml` template.
- `app/` is the program: command-line parsing (clap), reading the
  configuration file (toml, serde), walking the tree (walkdir), and printing
  (colored, serde_json).
- `tests/` exercises the library.

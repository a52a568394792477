# structloglint

A linter for [structlog](https://www.structlog.org/) log calls in Python
code, written in Verus.

- `src/` is the verified library. `python` parses a module with
  `rustpython_parser` into the model of `ast`; `ast_walker` finds the log
  calls and the block each stands in; `rules` checks each call against
  SL001 to SL009 under the configuration of `config`; `noqa` reads
  `# noqa` comments; `analyzer` combines these into findings; `display`
  renders diagnostics and the summary; `runner` lints one file's text and
  gathers the reports of many. Each public function states its result in
  its `ensures`, and the `law_*` proof functions state the properties that
  hold across them.
- `app/main.rs` is the command-line program: argument parsing, reading
  configuration files, walking the source tree, parallel linting and
  printing.
- `tests/` runs the library on concrete Python sources.

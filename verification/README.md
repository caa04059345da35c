# mnml-db-dynamodb

A terminal browser for Amazon DynamoDB tables, one tab per table, driven by
the `aws` CLI.

- `src/` — the verified library: configuration checks (`config`), JSON values
  (`json`), item rendering, `aws` command lines and scan outcomes
  (`dynamodb`), the browser's tab and selection state (`app`), and text
  helpers (`text`).
- `tests/` — tests of the library.
- `app/` — the program around it: command line, configuration file,
  subprocesses, clipboard, web browser and the terminal UI.

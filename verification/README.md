# patto-cli-core

The analysis core of the Patto CLI for Discord bot projects: it scans a
project into an index of its commands, lints it, checks its environment
(`doctor`), sorts the keys of its locale files (`format-i18n`) and runs all of
it at once (`check`), each command answering in JSON or in one line of text.

## Layout

- `src/` — the library, verified with Verus. Each function states what it
  computes in its contract, over the specification functions beside it.
  - `text.rs`, `lexer.rs`: characters, searching, and the TypeScript lexer
    that tells code from comments and strings.
  - `project/`: the readers of commands, decorators, `package.json` and the
    configuration, and the scan that builds the index.
  - `lint/`: the rule configuration, the context the rules read, the i18n
    call and key readers, and one module per rule.
  - `doctor/`: the checks and how their results are reported.
  - `format_i18n.rs`, `scan.rs`, `check.rs`: the other commands' results.
  - `lang/`: the message catalogue.
- `app/` — the command-line program: argument parsing, the walk of the
  project directory, reading and writing files, running `node` and the
  package manager, and printing JSON. It hands the library what it read and
  prints what the library returns.
- `tests/` — tests of the library on concrete inputs.

The laws the library proves (each a `law_` proof function) include: linting
reports only rules that are on, at their configured level; sorting locale
entries keeps them and puts them in key order; formatting only reorders the
entries, and an entry it has laid out keeps its layout when laid out again; the entries of an object body joined by commas give the body back;
the masks keep byte offsets, and masking twice changes nothing; every
reported diagnostic code has a message and a hint; rule ids are distinct
and are reported codes; a severity reads the same in any ASCII case; alias imports never
resolve outside `src/`; scanned commands come ordered by file; sorted
distinct texts come once each, in order.

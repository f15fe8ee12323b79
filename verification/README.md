# agent_task

A task manager for many concurrent AI agents and humans, backed by SQLite.
Tasks are added, listed, shown, updated, completed and deleted from the
command line; values are sanitized against terminal escape sequences before
they are stored and checked against length, emptiness and date-format rules.

The library under `src/` is verified with Verus:

- `sanitize`: strips ANSI/VT100 escape sequences, control characters,
  bidirectional-formatting characters and line/paragraph separators;
- `validate`: title visibility, field lengths, due-date format;
- `models`: status and priority names, the task record, its tag list;
- `db`: the SQL text and bound values of every query, and the operations
  that run them through `rusqlite`; the retry and directory-trust rules used
  when opening the database;
- `commands`: which arguments each command refuses, and how accepted values
  are cleaned (lengths are measured on the raw arguments, before any
  cleaning; an `update` that names no field is refused);
- `output`: the `list` table and the `show` detail view, as lines of text.

`app/` holds the command-line program: argument parsing, file-system work
to locate and open the database, JSON output, and printing.

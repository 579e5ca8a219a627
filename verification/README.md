# oflow

A focused todo library and command-line tool.

- `src/` is the verified library: todo items and the todo list (`models`), loading
  the list from stored rows (`database`), the command-line grammar (`commands`), the
  state machine behind the terminal interface (`tui`), and small helpers (`order`,
  `text`).
- `app/` is the program around it: argument parsing with clap, the data directory,
  the SQLite store, the TOML file and the terminal drawing.
- `tests/` exercises the library.

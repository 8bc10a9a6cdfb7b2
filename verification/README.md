# pomodoro_todo

A terminal pomodoro timer with task folders. Tasks live in named folders,
each with a list of open tasks and a list of completed ones; a work/break
timer counts down beside them; the folders can be exported to and imported
from `pomodoro-todo-export.txt`.

Layout:

- `src/` is the library, with its specifications and proofs: the application state and every
  operation on it (`app.rs`, `keys.rs`), folders and their row selection
  (`folder.rs`), the export format and its reader (`export.rs`), character
  level text helpers (`text.rs`), the screen texts (`display.rs`), the clock
  wrappers (`clock.rs`) and properties relating the operations (`laws.rs`).
- `app/main.rs` is the terminal front end (crossterm, ratatui): it reads
  keys and the export file, and draws what the library computes.
- `tests/` exercises the library on concrete values.

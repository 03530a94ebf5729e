# termban

A terminal Kanban board for tracking several projects. Each project has three
columns (not done, in progress, done); the board is saved to disk after every
change.

- `src/` is the verified library:
  - `model`: tasks, projects, adding, deleting and moving tasks, and the
    stable sort of projects by name, last change or number of tasks;
  - `board`: the cursor and the typed text, and what each key does to them
    (`Board::handle_key`), with the invariant that the cursor stays on the board;
  - `display`: the text of labels, task lines and the action bar;
  - `text`: case folding (through `str::to_lowercase`) and the code-point
    order of strings;
  - `clock`: time stamps and the reading of the system clock (through chrono).
- `app/` is the terminal program: it reads keys with crossterm, draws with
  ratatui, and keeps the projects as JSON in the data directory
  (`$XDG_DATA_HOME/termban/projects.json`).
- `tests/` run the library on concrete boards.

Keys: `←`/`→` project, `Tab` column, `↑`/`↓` task, `t` add task, `p` add
project, `d` delete project, `x` delete task, `[`/`]` move task, `s` sort
order, `Enter`/`Esc` confirm or cancel typing, `q` quit.

# gitopo

A read-only git branch topology explorer for the terminal, built around a
library verified with Verus.

## Layout

- `src/` — the verified library
  - `git/` — commit ids and records, the pure parts of loading a repository
    (HEAD detection, commit texts, the tip-to-branch index, branch display
    order), branch ancestry, relative timestamps and hexadecimal ids
  - `graph/` — lane assignment of the commit graph and the text of its rows
  - `app.rs` — the interactive state machine: focus, cursors, scrolling,
    branch search, and what each event does; `app/panes.rs` — what the
    branch, commit and detail panes show
  - `events.rs` — key events and key bindings
  - `ui/` — palette, truncation, and the text and geometry of the panes
  - `idmap.rs`, `strings.rs` — maps keyed by commit id, text primitives
- `app/` — the program: command line, reading the repository with git2,
  terminal input with crossterm, drawing with ratatui
- `tests/` — tests of the library

Every operation of the library states its result in its contract, exactly
wherever the result is fixed by its arguments (the screen layout, which
comes from ratatui's solver, is stated as the order and alignment of the
panes, not their sizes);
laws that relate several operations (lanes collapse where histories meet,
every parent of a merge gets a lane, cursors stay in range under every
event, the display order of branches) are proof functions next to the code
they speak of.

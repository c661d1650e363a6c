# whack_a_mole

A terminal whack-a-mole game. The library (`src/`) holds the game's logic,
verified with Verus; `app/` is the terminal program around it.

- `src/layout.rs` – where the holes of the garden lie (rows of `w` and `w - 1`
  holes, `w` the rounded-up square root of their number), and the proof that no
  two holes share a place.
- `src/game.rs` – the game state: moles, holes, the names still to give, and what
  each key press does (`q`, `[`, `]`), with the invariant that no two moles sit in
  one hole.
- `src/mole.rs`, `src/hole.rs` – moles and holes.
- `src/text.rs` – splitting text into lines (the mole name file, the scroll of a
  text panel).
- `src/message_format.rs`, `src/renderer.rs` – the messages from the game to the
  renderer and the screen model they change.
- `src/random.rs` – the calls into `rand`.
- `app/` – `main`, the game and renderer tasks (tokio), drawing with ratatui,
  keyboard events from crossterm, and the tracing layer that feeds the Debug panel.

The game reads its mole names from `./mole_names.txt`, one per line, and logs to
`logs/mole_trace.log`.

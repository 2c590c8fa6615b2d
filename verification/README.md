# tetris

The rules of a falling-block puzzle, verified with Verus, and a small SDL2
front end around them.

- `src/board.rs`: the field and what a piece can do on it (fit, move, turn,
  settle), clearing full rows, and the danger line.
- `src/game.rs`: the seven pieces with their rotations and the game as it starts.
- `src/session.rs`: a running session and how a key press or a frame changes it,
  stated against a model (`key_model`, `tick_model`).
- `src/layout.rs`: where the field and its blocks are drawn.
- `src/laws.rs`: properties that span several operations.
- `app/main.rs`: the window, the keyboard, drawing and the frame clock.

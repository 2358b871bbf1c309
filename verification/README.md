# arena_of_ideas

The rules of Arena of Ideas, an auto-battler, as a library verified with
Verus: ladders of enemy teams, packing teams on and off the field, status
libraries, the battle's effect queues, status turns, deaths and spawns, the
shop's buttons and server sync, the hero editor's teams, the main menu, the
screen state machine, and the editor's expressions: their trees, their
values and their text. Each public function states what it returns or
changes, and the library's laws (a packed team comes back as it was
unpacked, queues are first in first out, dead units are all recorded,
survivors move in by the dead before them, and so on) are proved as proof
functions next to the code they speak of.

What the library does not hold:

- Carrying out most effects (damage, area damage, time bombs and the like):
  the library decides which effect runs next, step by step
  (`Logic::process_effects`), and the caller carries it out. These effects
  work on health, distances and times held as floating-point numbers. The
  spawn and suicide effects are in the library.
- The parts of an expression's value that read the clock, the music, a
  random draw, places on screen or numbers with a fraction: for these the
  evaluator answers `EvalError::Unsupported` and the caller works them out.
  Numbers with a fraction are written into an expression's text by a
  function the caller passes.
- Drawing, the editor's panels, files and the server connection.

Layout:

- `src/` holds the library; tests are under `tests/`.
- `app/` is a small command-line front end: it reads teams and heroes from
  RON files, keeps the floating-point delays of the effect queues and runs
  the rounds of effects.

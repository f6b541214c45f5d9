# clavirio

Learn touch typing without leaving the terminal: progressive lessons for
QWERTY, Dvorak and Colemak, live statistics, a virtual keyboard with key and
finger hints, and a session history.

The logic is a library verified with Verus; the terminal program around it
is ordinary Rust.

## Layout

- `src/` — the verified library.
  - `document.rs`: a text split into lines and the typing cursor moving
    through it.
  - `app.rs`: the application state and its state machine; each input event
    gives the next state and the outside work to do (save a session, read a
    file, load the history, quit).
  - `stats.rs`: hits and misses per key, and the weakest keys.
  - `keyboard.rs`, `keys.rs`: the keyboard rows of each layout, the grid
    position of every key, finger assignments and the keys to hint.
  - `screen.rs`: the regions of the screen, the cells of the virtual
    keyboard, the rows of the history view and what the text panel shows.
    The layout solver of `ratatui` is called behind a contract that states
    only what holds of every solution: one part per size, each a band of the
    area it cuts.
  - `lessons.rs`, `settings.rs`, `timestamp.rs`, `text.rs`: lessons and
    the lesson the menu cursor starts on, settings (layout, display toggles,
    theme), session timestamps and line splitting.
- `app/` — the program: terminal setup, key reading (`crossterm`), drawing
  (`ratatui`), the settings and history files (`toml`, `serde_json`), the
  clock (`time`) and the event loop (`tokio`).
- `tests/` — tests of the library.

## Maps

The per-key statistics (`KeyStats`) are a `std::collections::HashMap`
keyed by each character's code point (vstd specifies what a `HashMap` holds
for integer keys), with the characters also listed in the order they were
first counted, so that the weakest keys are found without walking the map.
The grid of key positions (`GridMap`) is a list of entries with unique
keys, viewed as a `Map`: its keys are `KeyCode`s, a type of this library,
for which vstd gives no `HashMap` specification and which has no integer
form of its own. The grid holds a few dozen keys, so a linear lookup costs
nothing that matters.

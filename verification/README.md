# peppi

A verified reader of Slippi replays, the recordings of games of Super Smash Bros. Melee.

A replay is a UBJSON map of two elements: `raw`, a stream of events, and `metadata`. `parse` tells
handlers of each event, in order, and then of the metadata. `parse_metadata` reads the metadata
alone.

- `src/` is the library, in Verus. `parse::replay` holds the reading of a whole replay,
  `parse::events` that of the stream of events, `parse::game_events` and `parse::frame_events` the
  layout of the payloads, and `parse::char_state` the guess at the character in a frame, which is
  what makes Zelda's and Sheik's states readable. `parse::laws` states what holds of every reading.
  `outside` holds what is taken on trust of other crates.
- `app/` reads replays from files and other readers.
- `tests/` runs the library on bytes made by hand.

Numbers in floating point are held by their bits (`float::Single`). A frame event must name one of
the four ports; `frames_in_range` tells whether all of them do, and `parse_checked` reads up to the
first that does not.

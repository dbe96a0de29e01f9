# tictock

A configurable clock for the terminal with eighteen faces, alarms and a
small configuration file.

- `src/` is the verified core, written in Verus: settings and their
  parsing, the alarm schedule (which alarm rings, how long until the next,
  the status line), key handling for the clock, the face picker and the
  alarm manager, how long the clock may sleep, and the integer layout of
  the faces that have one (seven-segment glyphs, the block grid, the day
  blocks, binary dots, split-flap cards, braille strokes, the snake board
  and the compact fallback card). `src/laws.rs` holds properties that span
  several operations.
- `app/` is the program around it: command-line parsing, the TOML file,
  the terminal session and event loop, and color blending.
- `tests/` exercises the library on concrete values.

Dates and times go through `chrono`; the few calls the core makes to it
are declared in `src/calendar.rs` with the properties relied on.

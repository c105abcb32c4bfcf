# baseview: windows on macOS

The decisions behind a macOS window, written and proved in Verus: how a window
is opened inside another one or on its own, how events and frames reach its
handler, how it is resized and focused, and how it is torn down in two phases.

* `src/` is the library. It never talks to AppKit. An operation that needs the
  platform hands out one command at a time and is resumed with the answer.
  `close.rs`, `finalize.rs`, `open.rs`, `events.rs`, `focus.rs`, `resize.rs` and
  `clipboard.rs` hold the operations, `state.rs` the table of windows that they
  work on, and `close_laws.rs`, `closing_sequence_laws.rs`, `open_laws.rs` and
  `lifetime_laws.rs` what whole runs amount to.
* `app/` performs the commands with AppKit and Core Foundation.
* `tests/` runs the library on plain values in place of the platform.

Objects of the platform are addresses, and floating-point numbers are carried as
bit patterns: the library passes both on and computes with neither.

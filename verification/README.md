# tui

The core of a terminal viewer for peer-observer events, written in Verus.

- `src/models`: event types and directions (bit sets), log messages with
  their one-line text and filters, and the running statistics.
- `src/app`: the viewer state (`App`): buffered messages, filters, scroll
  position, modes, the `:` commands (`app/command.rs`) and what each key does
  (`app/keys.rs`).
- `src/display`: the text and colours of the list, detail and statistics screens.
- `src/ring.rs`, `src/time.rs`, `src/text.rs`: the message buffer
  (`ringbuffer`), timestamps (`jiff`) and the `std` string operations used.
- `src/laws.rs`: properties that span several operations.
- `app/`: the terminal front end (NATS intake, ratatui drawing, crossterm keys).

# veecle_telemetry

Telemetry identifiers and messages, the trace store of the telemetry viewer, and the
pieces around them, written in Verus with their behaviour stated in contracts and proved.

## Layout

- `src/` — the verified library.
  - `hexfmt`, `text` — hex formatting and `from_str_radix`-style parsing; string helpers.
  - `id`, `protocol` — process, thread, span and execution ids with their text forms; the
    telemetry messages.
  - `wire` — the little-endian hex form ids travel in.
  - `store` (with `store::model`) — the trace store: spans, logs, actors and time bounds, and
    exactly what each message does to them.
  - `filter`, `selection`, `state`, `command`, `viewer` — the viewer's filters, hover and
    selection, panels, commands, and its reaction to commands and connection events.
  - `connection` — lines from a file held in memory or from a channel.
  - `timeline` — the row layout of root spans per actor.
  - `server` — the line store of the telemetry server and its message batching.
  - `span`, `collector`, `pretty`, `test_helpers` — spans as a thread sees them, collector
    pieces, the pretty log line, and the span tree of a message stream.
- `tests/` — tests of the library.
- `app/` — the program around it: JSON forms of the messages, exporters, the global
  collector, reading trace files and standard input.

# Sonic Oxide

A verified core for a live-coding music front end, written in Verus.

The library speaks OSC to the Sonic Pi runtime, supervises the runtime's
processes, reads the engine's shared memory, and holds what the editor and the
panes around it do. Every function of it has a contract that says what it returns
or changes; the properties that span functions are stated as proof functions whose
names begin with `law_`.

## Layout

- `src/` is the verified library.
  - `protocol`, `osc`, `client`, `session`: messages, their wire format, and what
    an incoming message means.
  - `ports`, `process`, `session_lock`, `supervisor`, `watchdog`: the handshake
    with the boot daemon, the boot and the shutdown of the children as state
    machines, and the lock by which a running session is found again.
  - `audio`: the layout of the shared memory segments, the scope ring and slots,
    the engine's metrics, and the integer part of the spectrum.
  - `vocab`: the completion vocabulary, its sources and its searches.
  - `editor`: comments, indentation, and the text runs that a screen reader walks.
  - `ui`: settings, files, buffers, events and the contents of the panes.
  - `log`, `i18n`, `store`, `tutorial`, `paths`, `pathname`: the log lines, the
    translation tables, the stored preferences, the tutorial and the file layout.
  - `text`, `utf8`, `table`, `number`, `order`: text as sequences of characters,
    and sorting.
- `tests/` runs the library on concrete values.
- `app/` is a terminal front end: sockets, processes, files, mapped memory, and
  what is computed in floating point.

## What is trusted

The encoding and decoding of OSC packets is done by `rosc`. The wrappers around
it stand in `src/osc.rs`; what they claim of it is in their doc comments. A few
functions of the standard library that have no specification (`str::to_lowercase`,
`char::is_alphanumeric`, `String::push`, the `Debug` form of a text) are given one
where they are used.

Floating-point values pass through the library as their bits.

# nanonis_tcp

Client-side logic of the Nanonis TCP programming interface, verified with
Verus.

- `src/codec/`: the big-endian wire codec. Each type states, as a spec
  function, the bytes it writes and what it reads from a byte sequence;
  types that are both read and written prove that reading back what was
  written gives the value (`Codec::lemma_roundtrip`).
- `src/commands/`: the command catalogue: names, argument and reply layouts.
- `src/fsm.rs`: the request/response exchange as a typed state machine over
  one buffer, with the framing laws of a request and a reply.
- `src/scan_watcher.rs`: the decisions of the scan watcher.
- `app/`: the TCP clients (blocking and `tokio`), the scan watcher's tasks,
  and error types with their messages.

Floating-point values travel as the big-endian bytes of their IEEE-754 bit
pattern; the library carries them as those bits (`u32` for `f32`, `u64` for
`f64`), and the clients in `app/` convert. Timeouts are carried as
milliseconds.

# ping

A ping protocol for a peer-to-peer service. The dialing side of a substream
sends 32-byte random pings and measures how long the pong takes. The
listening side sends every frame back unchanged.

- `src/` is the library. Verus checks it.
  - `codec.rs` frames the payloads on the wire.
  - `substream.rs` identifies a substream and buffers its bytes.
  - `listener.rs` and `dialer.rs` are the two protocol state machines.
  - `dialer_laws.rs` holds the dialer's laws, for single steps and for
    whole runs of steps.
  - `endpoint.rs` picks the state machine for a new substream.
  - `buffers.rs` and `platform.rs` declare what the library takes from the
    `bytes` and `rand` crates and from the standard library. They also hold
    the trusted contracts of those calls.
- `app/` connects the state machines to futures, tokio and the service.
  - It holds the substream channels, the framed transports and the timers.
  - It holds the node that polls every endpoint.
  - It holds the example program.
- `tests/` runs the library on concrete inputs.

A poll of the dialer or the listener is a sequence of calls to `step`. Each
step names one transport or timer call. The driver in `app/` makes that
call and hands the answer to the next step, until a step ends the poll.

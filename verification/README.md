# gravital_talk

The wire protocol, push-to-talk floor control and audio-session logic of a
real-time voice transport, written in Verus with their contracts proved.

## Layout

- `src/` — the verified library:
  - `wire`, `checksum`, `header`, `packet`, `message`, `fragment` — the
    packet format (CRC-16/CCITT-FALSE, 24-byte header, handshake payloads,
    fragments) with round-trip laws, and the burst-error detection of the
    CRC;
  - `session`, `lifecycle`, `frame_buffer`, `metrics` — handshake decisions,
    inbound dispatch, liveness, the session state machine, the receive
    buffer and the loss/jitter/RTT estimators;
  - `codec`, `codec_session` — PCM, codec negotiation and loss concealment;
  - `floor`, `identity` — push-to-talk floor control and Ed25519
    challenge-response (signing through `ed25519-dalek`);
  - `relay`, `cli`, `io`, `sdk`, `text` — the relay's routing table (held
    in `dashmap` tables) and its floor arbitration, the decisions of the
    command-line tools, capture/playback framing and the
    packet helpers for browser clients.
- `app/` — the `gs` program around the library: sockets, timers, the
  terminal, audio devices, Prometheus and the HTTP/WebSocket endpoints, and
  the floating-point quality figures.
- `tests/` — tests of the library.

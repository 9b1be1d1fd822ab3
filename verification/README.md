# room_rtc

The core of a peer-to-peer video calling system, verified with Verus: a
central server that signs users up, logs them in and pairs them for calls,
the SDP offer/answer exchange, the RTP/RTCP media packets and their
report exchange, the data-channel messages carried over SCTP, and the video
and audio packet pipelines.

## Layout

- `src/` — the verified library.
  - `wire.rs`, `text.rs`, `number.rs` — byte, character and number
    encodings with their read-back lemmas.
  - `rtp/`, `rtcp/`, `transport/` — media and report packets, the report
    exchange state machine, the receive decision.
  - `sdp/`, `ice.rs`, `config.rs` — session descriptions, attributes,
    candidates, offer/answer; lemmas that rendered attributes and whole
    descriptions parse back to themselves.
  - `sctp_transport/` — data-channel types, the DCEP messages, timeouts.
  - `server/` — the user table, the client protocol messages, the request
    handlers and the connection limit of the central server.
  - `media/` — frames, colour conversion and H.264 coding through
    `yuv`/`openh264`, chunking, the audio ring buffer, packetisation.
- `tests/` — the test suite, run against the compiled library.
- `app/` — the unverified shell: sockets, TLS, threads, files, devices,
  floating-point audio, the SCTP association loop. It hands plain values to
  the library and performs the actions the library decides.

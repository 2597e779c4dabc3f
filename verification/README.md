# potato_stream

Peer-to-peer video streaming over a Ditto mesh, with WebRTC carried over a
Ditto bus stream.

- `src/` is the verified library: stream advertising and discovery
  (`stream::advertise_stream`, `stream::find_stream`), the socket addresses
  that stand for peers, the signalling exchange and the session loops'
  decisions (`stream`, `stream::stream_client`, `stream::stream_server`),
  mesh shaping (`utils`), the bookkeeping of named tasks (`join_map`) and
  the start-up plan (`app`).
- `app/` is the program around it: command line, Ditto and OpenCV, the
  tokio task set, CBOR on the wire, and the async loops that perform what
  the library decides.
- `tests/` exercise the library on concrete values.

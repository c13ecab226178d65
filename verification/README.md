# fernq

FernQ is a lightweight message queue with rooms.  Clients connect over TCP,
join a room with a `fernq://host:port/<room-uuid>#<room-name>?room_pass=<pw>`
URL and exchange messages framed in a small binary protocol (magic, version,
type, flags, length, channel id, source and target names, stream length and
offset, payload, CRC-16/XMODEM).  Large messages are split into frames of at
most 8 KiB; a message stream is at most 8 MiB.

The library is written in Verus and verified:

- `src/protocol/` — the wire format.  `encoder` builds frames and splits
  streams, `decoder` reads them back, `roundtrip` proves that every stream
  the encoder writes decodes to the same fields and payload and that a
  changed byte is caught, `crc` states the CRC-16/XMODEM checksum and proves
  that it detects any one changed byte, `validate` builds and reads the join
  handshake and its reply, `json` holds JSON values as plain data, `message`
  is the JSON message layer (with the proof that a decoded message is the
  one encoded), `describe` renders errors and flags as text, and `outside`
  holds the few calls into `crc`, `uuid`, `serde_json` and std that Verus
  takes on trust.
- `src/room.rs`, `src/storage.rs`, `src/control.rs` — the decisions the
  daemon makes: which first frame to read, whether a join is accepted, where
  a frame is routed, which connection keeps a name, when a connection is
  pinged or closed, whether a room may be added or removed, and what a
  control command asks for.

`app/` is the daemon and its control tool (sockets, tasks, the fjall store,
the command line).  It calls the library for the protocol, for the
requests of the control tool, and for the decisions listed above.
`tests/` runs the library on concrete values.

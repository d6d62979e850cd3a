# tokio_chat

A small broadcast chat service: a server that relays every message to all connected
users, and a terminal client.

- `src/` is the verified library:
  - `message`: the handshake, client and server message types;
  - `codec`: length-prefixed framing of message payloads (a big-endian `u16` byte count,
    then the payload), with its round-trip laws;
  - `server`: the set of joined clients and what the server broadcasts on a handshake,
    a message and a disconnection;
  - `scroll`, `chat_view`: the state of the client's chat window (bounded scrollback,
    line wrapping, layout cache, scrolling that sticks to the newest line);
  - `client`: how the client renders server messages and treats what the user enters.
- `app/` runs it: the tokio reactors, sockets and channels, the serde JSON encoding, and
  the cursive user interface (`tokio-chat server`, `tokio-chat client NAME`).
- `tests/` exercises the library on concrete values.

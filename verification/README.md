# nuckrelay

A relay server for NetBird peers. The library under `src/` holds the
protocol logic, verified with Verus:

- `message`: the wire format (header, message types, auth and transport
  messages, the readable form of peer ids).
- `validator`: the token format, HMAC-SHA256 signatures, timestamp parsing and
  expiry.
- `handshake`: the decision on the first message of a connection.
- `store`: the table of connected peers, keyed by peer id, with the connection
  that registered each entry.
- `server`: the instance URL and the prepared auth response.
- `peer`: what each frame of a connected peer calls for, message routing,
  batching of queued messages, and when a peer's loop ends.

`app/` is the program around it: command line, TCP listener, websocket I/O and
the tokio tasks that carry out the library's decisions.

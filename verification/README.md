# jsonrpsee

A JSON-RPC 2.0 library whose message handling is verified with Verus.

- `src/` is the verified library: request and response objects and their
  JSON text, parameter scanning, error codes and objects, the server's batch
  bookkeeping (`types::jsonrpc::wrapped`), request extensions kept in name
  order, the method registry with its resource limits (`utils`), the
  server's admission and handshake decisions (`ws_server`), and the client's
  request manager and response handling (`ws_client`). Calls into
  `serde_json`, `url`, `arrayvec` and the `futures` channels go through small
  trusted wrappers whose contracts are stated next to them.
- `app/` holds what is not verified: serde encodings of the message types,
  parameter deserialization on top of the verified scanners, reading batch
  answers from a channel, socket address resolution and the server's stop
  signal.
- `tests/` exercises the library on concrete values.

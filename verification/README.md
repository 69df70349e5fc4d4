# lsp-server-tokio

Infrastructure for Language Server Protocol servers on Tokio, written in Verus: Content-Length
framing, JSON-RPC messages, request tracking, message routing, cancellation and the session
lifecycle.

- `src/` is the library. Its functions have contracts that Verus proves; the calls into outside
  crates have contracts that it takes as given. The library does no I/O: bytes and messages come in
  as arguments, and outbound messages go into a queue.
- `app/` is the async side around it: transports over `AsyncRead + AsyncWrite`, the task that drains
  the outbound queue, timeouts, and what implements traits of outside crates: the codec, the reader
  of member names, and errors that implement `std::error::Error`.
- `tests/` are the library's tests.

## Modules of the library

| Module | What it holds |
| --- | --- |
| `codec` | `LspCodec`: reading and writing frames; the laws of framing |
| `message`, `request_id`, `error` | requests, responses, notifications, ids and errors, and their JSON form |
| `request_queue`, `id_map` | pending requests of both directions |
| `routing`, `connection` | classification and delivery of inbound messages, handshake, shutdown and exit |
| `client_sender` | requests to the client and their replies |
| `lifecycle` | session states, protocol errors, exit codes |
| `text` | line splitting, trimming and decimal numerals |
| `json`, `buffer`, `channel`, `token`, `io_error`, `convert` | contracts of the outside functions that are called |

## What is proved

- A message that is written as a frame is read back from it, whatever follows in the buffer.
- It makes no difference how a stream is cut: the same messages are read, in the same order.
- A JSON object is read as the message that its members make, and messages survive the way to JSON
  and back.
- A response goes to the request that is pending under its id, once; a late one goes to none.
- A request id that is pending is not given out again, and a free one is found where there is one.
- A cancel request cancels the token of the request that it names, and leaves the tokens that the
  other requests are registered with as they are. The proofs speak of tokens and queues as they are
  known through one handle; what other code does through a clone of it is not seen.
- A request that is cancelled, timed out or replaced gives its receiver an error: the sender is
  dropped, and nothing is sent on it.
- The handshake answers early requests with an error, and an exit is clean only after a shutdown.

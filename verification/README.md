# message_bus

A client for the message bus protocol: it polls a server over HTTP, reads the messages that come
back, passes them on and remembers how far it has read each channel.

- `src/` is the verified library. It reads frames and messages, keeps the topics and their
  positions, and decides what the poller does next.
- `app/` performs what the library decides: requests, tasks and channels.
- `tests/` runs the library.

The modules of the library:

- `client_id`: the identifier of a client and its written form
- `text`, `table`: decimal numbers, comparison of texts, tables without repeated keys
- `json`: JSON values as `serde_json` reads them
- `decoder`: frames, closed by a vertical bar, out of chunks of a body
- `message`: messages out of JSON
- `state`, `client`, `builder`: what a client asks for
- `poller`: the state machine of the poller
- `poll`: what comes of a whole poll, from the chunks of its body to the streams
- `error`: errors

# fluxora

Fluxora is an event-driven UI framework: a WebSocket gateway routes UI events to
hooks or to a message queue, and delivers queue messages back to the connected
sessions; the browser client keeps a view state that streamed content updates.

Layout:

- `src/` is the verified library, checked by Verus. It holds the JSON value
  model, sessions, chat messages and envelopes, creation timestamps, the
  configuration, the decoding of client frames, message routing, the session
  table, the client's view state and binding lookups, and the component-dispatch code generator's reading of
  its arguments and definitions and its planning. Calls into outside crates
  (`chrono`, `indexmap`, `minijinja`, `serde_json`, `ciborium`, `syn`,
  `proc-macro2`, `quote`, and the standard library's clock and `Debug`
  formatting) sit behind small trusted wrappers whose contracts are stated
  next to them.
- `app/` is the gateway program around it: configuration loading, the axum
  server, the Kafka producer and consumer, hook execution, and the code
  generator's file reading and output (`fluxora gen-dispatch`).
- `tests/` runs the library on concrete values.

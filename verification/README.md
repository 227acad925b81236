# chat_completions

A verified library for streaming chat completions: how the chunks of a stream
become response events, and how the request that starts the stream is put
together.

- `src/` is the library, written in Verus. `stream.rs` is the state machine,
  `pending.rs` puts tool calls together, `request.rs` and `headers.rs` build
  the request, `transcript.rs` and `laws.rs` speak of whole streams.
- `app/` is the asynchronous client around it: connections, tasks, JSON.
- `tests/` runs the library.

What the library trusts of the standard library and of the `http` crate stands
in `text.rs`, `request.rs` and `headers.rs`, in the functions marked
`external_body`.

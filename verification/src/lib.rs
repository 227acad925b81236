//! Streaming chat completions.
//!
//! The library holds the rules by which the chunks of a chat-completions
//! stream become response events, and those by which the request that starts
//! the stream is put together. It does no input or output: the caller polls
//! the connection, decodes the payloads and sends the events on.
//!
//! - [`chunk`] and [`event`]: what comes in and what goes out
//! - [`pending`]: tool calls that are put together from fragments
//! - [`stream`]: the state machine, one step per poll and per decoded payload
//! - [`headers`] and [`request`]: header fields, and the request
//! - [`text`]: white space and the end marker
//! - [`transcript`] and [`laws`]: whole streams, and what holds of all of them
//! - [`step_laws`], [`request_laws`] and [`value_laws`]: what holds of each
//!   step, of each request, and of the values that go in and come out

pub mod chunk;
pub mod event;
pub mod headers;
pub mod laws;
pub mod pending;
pub mod request;
pub mod request_laws;
pub mod step_laws;
pub mod stream;
pub mod text;
pub mod transcript;
pub mod value_laws;

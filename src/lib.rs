//! Streaming chat-completion core.
//!
//! - `context`: stored history plus new user input, as the ordered messages
//!   a completion service reads.
//! - `frame`: the decoder that turns response bytes, cut anywhere, into
//!   protocol frames.
//! - `json`: the parsed JSON that the decoder reads a content fragment from.
//! - `pipeline`: the request state machine, from history to stored answer.
//! - `clock` and `records`: timestamps and the plain records shared with the
//!   store, the configuration and the caller.

pub mod clock;
pub mod context;
pub mod frame;
pub mod json;
pub mod pipeline;
pub mod records;

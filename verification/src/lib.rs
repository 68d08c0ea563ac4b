//! A runtime for nodes that talk in lines of JSON: a node takes one message
//! per line of input, hands its payload to a handler, and answers with one
//! line.
//!
//! The library decides what is answered to a line and leaves reading and
//! writing the lines to its caller: a `Runtime` is built around a handler by
//! a `RuntimeBuilder`, and `Runtime::step` takes a line and gives the reply.
//! The first line that a node takes is the handshake, which gives the node
//! its name; every line after it is a request for the handler.
//!
//! Two handlers come with the library: `EchoNode`, which sends every text
//! back, and `UniqueIdsNode`, which hands out ids of which no two are alike.

pub mod error;
pub mod handlers;
pub mod json;
pub mod protocol;
pub mod runtime;
pub mod value;
pub mod wire;

pub use error::{chain_cause, chain_head, error_chain_fmt, NodeError};
pub use handlers::{Echo, EchoNode, EchoOk, Generate, GenerateOk, UniqueIdsNode};
pub use protocol::{Body, Init, InitOk, Message, Payload};
pub use runtime::{Handler, NoHandler, Node, NotRunnable, Runnable, Runtime, RuntimeBuilder};

//! The protocol core of a NATS client.
//!
//! The crate holds the decisions of the client: how bytes from the server are
//! framed and understood, what is buffered while there is no connection, which
//! subscription a message goes to, and in what order a new connection is
//! brought up to date. Sockets, timers and locks belong to the program around
//! it.

pub mod channel;
pub mod client_op;
pub mod error;
pub mod frame;
pub mod laws;
pub mod line_laws;
pub mod message;
pub mod parser;
pub mod step_laws;
pub mod subscription;
pub mod text;
pub mod writer;

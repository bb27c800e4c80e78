//! A small chat relay: a length-prefixed framing protocol, the message model
//! and its input parser, the fan-out hub that connects clients, and the
//! decisions of the server's and the client's loops. A set of text
//! formatters sits beside it.
pub mod client;
pub mod format;
pub mod frame;
pub mod hub;
pub mod message;
pub mod picture;
pub mod server;
pub mod text;

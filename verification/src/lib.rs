//! SSH3: the Secure Shell connection protocol carried over HTTP/3, as a verified library.
//!
//! The library performs no I/O. It encodes and decodes the wire format, keeps the state of
//! channels and conversations, and takes the decisions of the server and of the client; the
//! program around it moves the bytes.

pub mod auth;
pub mod client;
pub mod conversation;
pub mod failure;
pub mod http;
pub mod path;
pub mod proto;
pub mod relay;
pub mod server;
pub mod text;
pub mod words;

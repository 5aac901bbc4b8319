//! The SSH3 wire format.

pub mod address;
pub mod header;
pub mod message;
pub mod request;
pub mod wire;

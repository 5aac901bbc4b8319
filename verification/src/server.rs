//! What a server decides: who may open a conversation, and what a session channel does.

pub mod authorization;
pub mod config;
pub mod password;
pub mod process;
pub mod session;

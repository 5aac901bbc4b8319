//! Conversations and the channels that they carry.

pub mod channel;
pub mod queue;
pub mod router;
pub mod state;

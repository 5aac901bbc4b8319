//! What a client decides: how it is told what to do, how it says who it is, and how it follows a
//! session.

pub mod agent;
pub mod config;
pub mod error;
pub mod oidc;
pub mod options;
pub mod request;
pub mod session;

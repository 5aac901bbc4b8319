//! Who is who: keys, signed tokens, and the identities that may log in.

pub mod encoding;
pub mod error;
pub mod identity;
pub mod key;
pub mod oidc;
pub mod signature;
pub mod token;

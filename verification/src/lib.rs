//! Reconciles the identities held by a running SSH agent with a generated
//! SSH client configuration: raw identities are normalized into key records,
//! an order-sensitive fingerprint decides whether anything changed, and a
//! synchronization plan lists the exact files and texts to materialize.

pub mod agent;
pub mod config;
pub mod constants;
pub mod laws;
pub mod outside;
pub mod parse;
pub mod strutil;
pub mod types;

pub use types::RawIdentity;
pub use types::SshKey;

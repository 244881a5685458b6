//! The core of a real-time chat relay: a stateless token authority, the
//! decisions of the account handlers, and the per-connection session state
//! machine that gates publishing behind authentication.

pub mod account;
pub mod authorization;
pub mod crypto;
pub mod encoding;
pub mod session;

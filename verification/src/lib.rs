//! A mutually-authenticated RPC channel: trust-store construction, the
//! handshake trust decision, peer-identity extraction from X.509
//! certificates, a length-prefixed frame codec, and an echo service handler.

pub mod cert;
pub mod echo;
pub mod errors;
pub mod frame;
pub mod session;
pub mod trust;

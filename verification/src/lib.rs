//! A relay for NetBird peers: wire messages, token validation, the peer
//! table, the handshake and the per-peer forwarding decisions.
pub mod message;
pub mod validator;
pub mod handshake;
pub mod store;
pub mod server;
pub mod peer;

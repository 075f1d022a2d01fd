//! A TCP tunnel: clients behind a firewall authenticate with an Ed25519 key, ask a relay server
//! for a public port, and have the connections made to that port forwarded to them.
//!
//! The library holds the protocol: keys, messages, frames, the challenge and its answer, and the
//! decisions of the client and of the server. Sockets, timers and JSON stand around it.

pub mod auth;
pub mod client;
pub mod connections;
pub mod delimited;
pub mod hex;
pub mod keys;
pub mod outside;
pub mod ports;
pub mod protocol_laws;
pub mod server;
pub mod session;
pub mod session_laws;
pub mod shared;
pub mod text;

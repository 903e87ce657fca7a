//! Session protocol engine for a point-to-point UDP VPN.
//!
//! A server and its clients exchange authenticated, encrypted datagrams.
//! This crate holds the verified core: the packet codec and AEAD envelope,
//! the credential store, the per-client session table, and the server and
//! client protocol state machines.  Socket, timer and TUN plumbing live
//! outside the library and drive these functions with plain values.

pub mod client;
pub mod config;
pub mod creds;
pub mod packet;
pub mod server;
pub mod session;
pub mod wire;

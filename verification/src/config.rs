//! Plain-value configuration for the two endpoints.
//!
//! The configuration loader (file reading and parsing) lives outside the
//! library; it fills these structures with plain values.  The defaults that
//! apply when a setting is absent are stated here, each as its own function.

pub mod client;
pub mod server;

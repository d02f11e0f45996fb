//! Tor transport.

pub mod address;
pub mod config;
pub mod monitoring;
pub mod stats;
pub mod transport;

//! Verified core of a peer-to-peer packet transport layer: UDP, Tor and WebRTC.

pub mod addr;
pub mod addr_map;
pub mod decimal;
pub mod error;
pub mod fields;
pub mod rtc;
pub mod text;
pub mod tor;
pub mod udp;

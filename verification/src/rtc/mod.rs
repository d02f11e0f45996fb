//! WebRTC data-channel transport.

pub mod candidate_policy;
pub mod candidates;
pub mod channel;
pub mod config;
pub mod counters;
pub mod description;
pub mod ice_url;
pub mod keys;
pub mod lifecycle;
pub mod mdns;
pub mod negotiation;
pub mod offers;
pub mod resolver;
pub mod seen;
pub mod sessions;
pub mod signal;
pub mod transport;

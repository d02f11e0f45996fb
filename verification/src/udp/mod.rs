//! UDP transport.

pub mod config;
pub mod drain;
pub mod gso;
pub mod rebind;
pub mod receive;
pub mod service_type;
pub mod snmp;
pub mod socket;
pub mod stats;
pub mod transport;

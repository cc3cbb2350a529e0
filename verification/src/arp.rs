//! The ARP engine: packet construction, query correlation and spoofing.

pub mod network_location;
pub mod packet_builder;
pub mod query;
pub mod spoofer;

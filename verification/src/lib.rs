//! Verified core of a layer-2 interceptor for an Ethernet/IPv4 LAN.
//!
//! The crate holds the decisions of the interceptor as pure functions and
//! small state machines over bytes and plain values: the ARP and Ethernet
//! wire formats, the ARP query correlation, the spoofing cadence, the
//! forwarding filter, the capture fan-out, the reverse-DNS cache and the
//! daily rotation of the traffic tables. Sockets, timers and the database
//! are driven by the caller, which performs the actions these functions
//! return and hands back what happened.

pub mod address;
pub mod arp;
pub mod bytes;
pub mod ipv4_text;
pub mod logger;
pub mod operating_system;
pub mod packet;
pub mod packet_inspection;
pub mod socket;
pub mod text;

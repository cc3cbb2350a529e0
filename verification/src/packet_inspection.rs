//! The forwarding pipeline: what to do with each captured frame, and the
//! name cache that enriches the traffic log.

pub mod get_name_addr;
pub mod inspector;

//! The layer-2 I/O core: frames, the channel settings, and the fan-out of
//! one capture stream to its consumers.

pub mod capture_hub;
pub mod datalink_provider;
pub mod ethernet_packet_vector;
pub mod ethernet_packet_wrapper;

//! Read-only views of the wire formats the interceptor handles.
//!
//! Each view borrows the bytes of one packet and is only made of bytes that
//! hold at least the fixed header, so every field can be read without a
//! bounds failure. What a field is, is stated over the byte sequence.

pub mod arp;
pub mod ethernet;
pub mod ipv4;
pub mod ipv6;

//! What the interceptor picks out of what the operating system reports.

pub mod network_tools;

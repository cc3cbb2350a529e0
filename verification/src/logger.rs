//! The traffic log: one table per UTC day.

pub mod sqlite_logger;

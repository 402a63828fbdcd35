//! The bookkeeping around the persistent cache of commit statistics.
//!
//! The store itself is a relational database that the caller runs. This
//! module decides what is asked of it and what is written to it, and turns
//! its rows into records.

pub mod contents;
pub mod info;
pub mod missing;
pub mod schema;
pub mod stats;
pub mod store;

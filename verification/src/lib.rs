//! A standing-query search engine: clients register fuzzy queries, every
//! incoming document is matched against all of them, and each match that
//! clears its query's threshold becomes a stored record.

pub mod errors;
pub mod gateway;
pub mod ids;
pub mod paths;
pub mod pipeline;
pub mod records;
pub mod registry;
pub mod search;
pub mod spans;
pub mod storage;

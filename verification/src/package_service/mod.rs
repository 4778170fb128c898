//! The package cache's records: what is stored for each fetched package, the
//! cache key it is stored under, and the size cap with oldest-first eviction.
pub mod models;
pub mod schemas;
pub mod service;

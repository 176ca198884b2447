//! Aggregation of a hosting service's public data about one user into a
//! single profile record: classification of upstream replies, analysis of the
//! activity feed, the staged fan-out, and a bounded cache with expiry.

pub mod time;
pub mod text;
pub mod models;
pub mod analyzer;
pub mod fetcher;
pub mod gateway;
pub mod aggregator;
pub mod cache;

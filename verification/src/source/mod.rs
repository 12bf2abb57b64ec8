//! Source counters: how often each referrer was seen.

pub mod handlers;
pub mod models;

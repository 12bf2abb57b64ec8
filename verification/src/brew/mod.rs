//! Homebrew bottle tracking.

pub mod counter;
pub mod filename;
pub mod handlers;
pub mod redirect;
pub mod registry;
pub mod report;
pub mod stats;

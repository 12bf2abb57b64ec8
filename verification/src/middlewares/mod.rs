//! What is decided about a request before it reaches a handler.

pub mod auth;

//! Keys, and the handlers that turn them into operations.

pub mod handlers;
pub mod keys;

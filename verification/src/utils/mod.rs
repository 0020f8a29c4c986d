//! Platform helpers.

pub mod platform;

//! Utilities over message streams.

pub mod utils;

//! Storage-side query types.

pub mod filters;

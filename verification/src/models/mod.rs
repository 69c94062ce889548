//! Core data models.

pub mod memory;

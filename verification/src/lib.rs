//! Memory management for AI agents: topic routing, memory records, relationship
//! types and their constraints, schema validation of metadata, and the small
//! configuration types around embeddings.

pub mod text;
pub mod messaging;
pub mod models;
pub mod error;
pub mod storage;
pub mod time;
pub mod memory;
pub mod ml;
pub mod json;
pub mod relationships;
pub mod search;

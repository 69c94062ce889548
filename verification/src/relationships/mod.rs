//! Relationship types, their registry, the constraints they carry, and the
//! validation of relationship metadata against a schema.

pub mod validation;
pub mod registry;
pub mod types;
pub mod enforcement;
pub mod metrics;
pub mod dynamics;

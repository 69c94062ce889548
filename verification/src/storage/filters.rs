//! Filters for memory queries.

use vstd::prelude::*;
use crate::time::Timestamp;

verus! {

/// Criteria a stored memory must meet; a `None` field places no constraint.
#[derive(Debug, Clone)]
pub struct MemoryFilter {
    /// The memory type's text form must equal this.
    pub memory_type: Option<String>,
    /// The memory must carry every one of these tags.
    pub tags: Option<Vec<String>>,
    /// The memory's source must equal this.
    pub source: Option<String>,
    /// The memory must not be created before this time.
    pub created_after: Option<Timestamp>,
    /// The memory must not be created after this time.
    pub created_before: Option<Timestamp>,
    /// The memory's content must contain this text, ignoring case.
    pub content: Option<String>,
}

impl Default for MemoryFilter {
    fn default() -> (f: Self)
        ensures
            f.memory_type is None,
            f.tags is None,
            f.source is None,
            f.created_after is None,
            f.created_before is None,
            f.content is None,
    {
        MemoryFilter {
            memory_type: None,
            tags: None,
            source: None,
            created_after: None,
            created_before: None,
            content: None,
        }
    }
}

} // verus!

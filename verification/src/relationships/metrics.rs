//! Relationship metrics tracking.
//!
//! Counts relationship operations to inform whether automatic constraint
//! enforcement should be enabled by default. Each counter wraps around at
//! `u64::MAX`, as an atomic `fetch_add` does.

use vstd::prelude::*;
use crate::relationships::registry::RelationshipTypeDef;
use crate::text::str_eq;
use crate::time::{Timestamp, now};

verus! {

/// Metrics snapshot for a point in time.
#[derive(Debug, Clone, Copy, PartialEq, Eq, Structural)]
pub struct MetricsSnapshot {
    /// Count of symmetric relationships created
    pub symmetric_relationships_created: u64,
    /// Count of transitive relationships created
    pub transitive_relationships_created: u64,
    /// Count of times users manually created inverse relationships
    pub manual_inverse_creates: u64,
    /// Count of times enforcement flag was used (true count)
    pub enforcement_requests_enabled: u64,
    /// Count of times enforcement flag was used (false count)
    pub enforcement_requests_disabled: u64,
    /// Total relationships created
    pub total_relationships_created: u64,
    /// Timestamp of snapshot
    pub timestamp: Timestamp,
}

/// Relationship metrics collector: the counts as a value. A collector that
/// several owners share holds one such value behind a lock, so that every
/// owner records into and reads the same counts.
#[derive(Debug, Clone, Copy, PartialEq, Eq, Structural)]
pub struct RelationshipMetrics {
    pub symmetric_relationships: u64,
    pub transitive_relationships: u64,
    pub manual_inverse_creates: u64,
    pub enforcement_enabled: u64,
    pub enforcement_disabled: u64,
    pub total_created: u64,
}

/// `n` plus one, wrapping around at `u64::MAX`.
pub open spec fn bump(n: u64) -> u64 {
    if n == u64::MAX {
        0
    } else {
        (n + 1) as u64
    }
}

/// `n` plus one when `cond` holds.
pub open spec fn bump_if(n: u64, cond: bool) -> u64 {
    if cond {
        bump(n)
    } else {
        n
    }
}

/// The counters with every one at zero.
pub open spec fn zero_metrics() -> RelationshipMetrics {
    RelationshipMetrics {
        symmetric_relationships: 0,
        transitive_relationships: 0,
        manual_inverse_creates: 0,
        enforcement_enabled: 0,
        enforcement_disabled: 0,
        total_created: 0,
    }
}

/// The counters after recording one creation of a relationship whose type is
/// symmetric and transitive as given, with enforcement on or off.
pub open spec fn after_created(m: RelationshipMetrics, symmetric: bool, transitive: bool, enforced: bool) -> RelationshipMetrics {
    RelationshipMetrics {
        symmetric_relationships: bump_if(m.symmetric_relationships, symmetric),
        transitive_relationships: bump_if(m.transitive_relationships, transitive),
        manual_inverse_creates: m.manual_inverse_creates,
        enforcement_enabled: bump_if(m.enforcement_enabled, enforced),
        enforcement_disabled: bump_if(m.enforcement_disabled, !enforced),
        total_created: bump(m.total_created),
    }
}

/// Whether two relationships run between the same entities in opposite
/// directions.
pub open spec fn is_manual_inverse(
    rel1_source: Seq<char>,
    rel1_target: Seq<char>,
    rel2_source: Seq<char>,
    rel2_target: Seq<char>,
) -> bool {
    rel1_source == rel2_target && rel1_target == rel2_source
}

impl RelationshipMetrics {
    /// Create a new metrics collector with every count at zero.
    pub fn new() -> (r: Self)
        ensures
            r == zero_metrics(),
    {
        RelationshipMetrics {
            symmetric_relationships: 0,
            transitive_relationships: 0,
            manual_inverse_creates: 0,
            enforcement_enabled: 0,
            enforcement_disabled: 0,
            total_created: 0,
        }
    }

    /// Record a relationship creation event.
    pub fn record_relationship_created(&mut self, type_def: &RelationshipTypeDef, enforced: bool)
        ensures
            *final(self) == after_created(*old(self), type_def.symmetric, type_def.transitive, enforced),
    {
        self.total_created = self.total_created.wrapping_add(1);
        if type_def.symmetric {
            self.symmetric_relationships = self.symmetric_relationships.wrapping_add(1);
        }
        if type_def.transitive {
            self.transitive_relationships = self.transitive_relationships.wrapping_add(1);
        }
        if enforced {
            self.enforcement_enabled = self.enforcement_enabled.wrapping_add(1);
        } else {
            self.enforcement_disabled = self.enforcement_disabled.wrapping_add(1);
        }
    }

    /// Record detection of manually created inverse relationships.
    pub fn record_manual_inverse_detected(&mut self)
        ensures
            *final(self) == (RelationshipMetrics {
                manual_inverse_creates: bump(old(self).manual_inverse_creates),
                ..*old(self)
            }),
    {
        self.manual_inverse_creates = self.manual_inverse_creates.wrapping_add(1);
    }

    /// Detect if a pair of relationships might be manual inverses: the source
    /// of each is the target of the other. The type name is not compared.
    pub fn detect_manual_inverse(
        _rel1: &str,
        rel1_source: &str,
        rel1_target: &str,
        rel2_source: &str,
        rel2_target: &str,
    ) -> (r: bool)
        ensures
            r == is_manual_inverse(rel1_source@, rel1_target@, rel2_source@, rel2_target@),
    {
        str_eq(rel1_source, rel2_target) && str_eq(rel1_target, rel2_source)
    }

    /// Get a snapshot of the current counts, stamped with the current time.
    pub fn export_metrics(&self) -> (r: MetricsSnapshot)
        ensures
            r.symmetric_relationships_created == self.symmetric_relationships,
            r.transitive_relationships_created == self.transitive_relationships,
            r.manual_inverse_creates == self.manual_inverse_creates,
            r.enforcement_requests_enabled == self.enforcement_enabled,
            r.enforcement_requests_disabled == self.enforcement_disabled,
            r.total_relationships_created == self.total_created,
    {
        MetricsSnapshot {
            symmetric_relationships_created: self.symmetric_relationships,
            transitive_relationships_created: self.transitive_relationships,
            manual_inverse_creates: self.manual_inverse_creates,
            enforcement_requests_enabled: self.enforcement_enabled,
            enforcement_requests_disabled: self.enforcement_disabled,
            total_relationships_created: self.total_created,
            timestamp: now(),
        }
    }

    /// Reset all metrics to zero.
    pub fn reset(&mut self)
        ensures
            *final(self) == zero_metrics(),
    {
        self.symmetric_relationships = 0;
        self.transitive_relationships = 0;
        self.manual_inverse_creates = 0;
        self.enforcement_enabled = 0;
        self.enforcement_disabled = 0;
        self.total_created = 0;
    }
}

impl Default for RelationshipMetrics {
    fn default() -> (r: Self)
        ensures
            r == zero_metrics(),
    {
        Self::new()
    }
}

/// Whether every recorded creation is counted once as enforced or not
/// enforced (counting modulo 2^64, as the counters wrap).
pub open spec fn is_balanced(m: RelationshipMetrics) -> bool {
    (m.enforcement_enabled + m.enforcement_disabled) % 0x1_0000_0000_0000_0000 == m.total_created as int
}

/// Fresh or reset counters are balanced.
pub proof fn lemma_zero_balanced()
    ensures
        is_balanced(zero_metrics()),
{
}

/// Recording a creation keeps the counters balanced.
pub proof fn lemma_created_keeps_balance(m: RelationshipMetrics, symmetric: bool, transitive: bool, enforced: bool)
    requires
        is_balanced(m),
    ensures
        is_balanced(after_created(m, symmetric, transitive, enforced)),
{
    let m2 = after_created(m, symmetric, transitive, enforced);
    let e = m.enforcement_enabled as int;
    let d = m.enforcement_disabled as int;
    let t = m.total_created as int;
    let w = 0x1_0000_0000_0000_0000int;
    assert(m2.total_created as int == (t + 1) % w);
    if enforced {
        assert(m2.enforcement_enabled as int == (e + 1) % w);
        assert(((e + 1) % w + d) % w == (e + d + 1) % w) by (nonlinear_arith)
            requires
                w > 0,
                0 <= e < w,
                0 <= d < w,
        {
            vstd::arithmetic::div_mod::lemma_add_mod_noop(e + 1, d, w);
            vstd::arithmetic::div_mod::lemma_mod_twice(e + 1, w);
        }
    } else {
        assert(m2.enforcement_disabled as int == (d + 1) % w);
        assert((e + (d + 1) % w) % w == (e + d + 1) % w) by (nonlinear_arith)
            requires
                w > 0,
                0 <= e < w,
                0 <= d < w,
        {
            vstd::arithmetic::div_mod::lemma_add_mod_noop(e, d + 1, w);
            vstd::arithmetic::div_mod::lemma_mod_twice(d + 1, w);
        }
    }
    assert((e + d + 1) % w == ((e + d) % w + 1) % w) by (nonlinear_arith)
        requires
            w > 0,
            0 <= e < w,
            0 <= d < w,
    {
        vstd::arithmetic::div_mod::lemma_add_mod_noop(e + d, 1, w);
        vstd::arithmetic::div_mod::lemma_mod_twice(1, w);
    }
}

/// Recording a detected manual inverse keeps the counters balanced.
pub proof fn lemma_manual_inverse_keeps_balance(m: RelationshipMetrics)
    requires
        is_balanced(m),
    ensures
        is_balanced(RelationshipMetrics { manual_inverse_creates: bump(m.manual_inverse_creates), ..m }),
{
}

} // verus!

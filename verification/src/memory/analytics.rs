//! Memory analytics: how many memories each type holds, the anomalies a set
//! of memories shows, and the kinds used by analytics reports.

use vstd::prelude::*;
use crate::memory::traversal::memory_views;
use crate::models::memory::{Memory, MemoryType, MemoryTypeView, MemoryView};
use crate::time::{new_uuid, now, uuid_shaped, Timestamp};

verus! {

/// Direction of memory growth trend.
#[derive(Debug, Clone, Copy, PartialEq, Eq, Structural)]
pub enum TrendDirection {
    Increasing,
    Decreasing,
    Stable,
}

/// Types of memory anomalies.
#[derive(Debug, Clone, Copy, PartialEq, Eq, Structural)]
pub enum AnomalyType {
    UnusualSize,
    MissingTags,
    PotentialDuplicate,
    OrphanedMemory,
    UnusualTimestamp,
}

/// Severity levels for anomalies.
#[derive(Debug, Clone, Copy, PartialEq, Eq, Structural)]
pub enum AnomalySeverity {
    Low,
    Medium,
    High,
    Critical,
}

/// A memory anomaly found by analytics.
#[derive(Debug)]
pub struct MemoryAnomaly {
    pub anomaly_id: String,
    pub anomaly_type: AnomalyType,
    pub memory_id: String,
    pub description: String,
    pub severity: AnomalySeverity,
    pub detected_at: Timestamp,
}

/// How many of the memories have type `t`.
pub open spec fn type_count(ms: Seq<MemoryView>, t: MemoryTypeView) -> nat
    decreases ms.len(),
{
    if ms.len() == 0 {
        0
    } else {
        type_count(ms.drop_last(), t) + if ms.last().memory_type == t {
            1nat
        } else {
            0nat
        }
    }
}

/// The types a breakdown counts.
pub open spec fn breakdown_types(counts: Seq<(MemoryType, usize)>) -> Seq<MemoryTypeView> {
    counts.map_values(|e: (MemoryType, usize)| e.0@)
}

/// Whether `counts` breaks the memories down by type: each type present once,
/// with the number of memories of that type, and every memory's type present.
pub open spec fn is_type_breakdown(counts: Seq<(MemoryType, usize)>, ms: Seq<MemoryView>) -> bool {
    &&& breakdown_types(counts).no_duplicates()
    &&& forall|k: int| 0 <= k < counts.len() ==> (#[trigger] counts[k]).1 == type_count(ms, counts[k].0@) && counts[k].1 > 0
    &&& forall|j: int| 0 <= j < ms.len() ==> breakdown_types(counts).contains(#[trigger] ms[j].memory_type)
}

/// Memories none of which has type `t` count none of it.
proof fn lemma_type_count_absent(ms: Seq<MemoryView>, t: MemoryTypeView)
    requires
        forall|j: int| 0 <= j < ms.len() ==> (#[trigger] ms[j]).memory_type != t,
    ensures
        type_count(ms, t) == 0,
    decreases ms.len(),
{
    if ms.len() > 0 {
        assert forall|j: int| 0 <= j < ms.drop_last().len() implies (#[trigger] ms.drop_last()[j]).memory_type != t by {
            assert(ms.drop_last()[j] == ms[j]);
        }
        lemma_type_count_absent(ms.drop_last(), t);
    }
}

/// The number of memories of each type, the types in the order they first
/// occur.
pub fn analyze_memory_types(memories: &[Memory]) -> (r: Vec<(MemoryType, usize)>)
    ensures
        is_type_breakdown(r@, memory_views(memories@)),
{
    let ghost ms = memory_views(memories@);
    let mut out: Vec<(MemoryType, usize)> = Vec::new();
    let mut i: usize = 0;
    while i < memories.len()
        invariant
            i <= memories@.len(),
            ms == memory_views(memories@),
            is_type_breakdown(out@, ms.take(i as int)),
            forall|k: int| 0 <= k < out@.len() ==> (#[trigger] out@[k]).1 <= i,
        decreases memories.len() - i,
    {
        let t = &memories[i].memory_type;
        let ghost prev = ms.take(i as int);
        let ghost next = ms.take(i + 1);
        assert(next.drop_last() =~= prev);
        assert(next.last().memory_type == t@);
        let mut p: usize = 0;
        while p < out.len() && !out[p].0.same_as(t)
            invariant
                p <= out@.len(),
                forall|q: int| 0 <= q < p ==> breakdown_types(out@)[q] != t@,
            decreases out.len() - p,
        {
            p += 1;
        }
        let ghost before = out@;
        if p < out.len() {
            let key = out[p].0.copy();
            let c = out[p].1;
            out.set(p, (key, c + 1));
            proof {
                assert(breakdown_types(out@) =~= breakdown_types(before));
                assert forall|k: int| 0 <= k < out@.len() implies (#[trigger] out@[k]).1 == type_count(next, out@[k].0@)
                    && out@[k].1 > 0 by {
                    assert(breakdown_types(before)[k] == before[k].0@);
                    if k != p {
                        assert(out@[k] == before[k]);
                        assert(breakdown_types(before)[k] != breakdown_types(before)[p as int]);
                    }
                }
                assert forall|j: int| 0 <= j < next.len() implies breakdown_types(out@).contains(#[trigger] next[j].memory_type) by {
                    if j < prev.len() {
                        assert(next[j] == prev[j]);
                    } else {
                        assert(breakdown_types(out@)[p as int] == t@);
                    }
                }
            }
        } else {
            proof {
                assert forall|j: int| 0 <= j < prev.len() implies (#[trigger] prev[j]).memory_type != t@ by {
                    if prev[j].memory_type == t@ {
                        assert(breakdown_types(before).contains(prev[j].memory_type));
                    }
                }
                lemma_type_count_absent(prev, t@);
            }
            out.push((t.copy(), 1));
            proof {
                assert(breakdown_types(out@) =~= breakdown_types(before).push(t@));
                assert forall|k: int| 0 <= k < out@.len() implies (#[trigger] out@[k]).1 == type_count(next, out@[k].0@)
                    && out@[k].1 > 0 by {
                    if k < before.len() {
                        assert(out@[k] == before[k]);
                        assert(breakdown_types(before)[k] == before[k].0@);
                    }
                }
                assert forall|j: int| 0 <= j < next.len() implies breakdown_types(out@).contains(#[trigger] next[j].memory_type) by {
                    if j < prev.len() {
                        assert(next[j] == prev[j]);
                        assert(breakdown_types(before).contains(prev[j].memory_type));
                        let w = choose|w: int| 0 <= w < breakdown_types(before).len() && breakdown_types(before)[w] == prev[j].memory_type;
                        assert(breakdown_types(out@)[w] == breakdown_types(before)[w]);
                    } else {
                        assert(breakdown_types(out@)[before.len() as int] == t@);
                    }
                }
            }
        }
        i += 1;
    }
    assert(ms.take(memories@.len() as int) =~= ms);
    out
}

/// The identifiers of the memories without tags, in order.
pub open spec fn untagged_ids(ms: Seq<MemoryView>) -> Seq<Seq<char>>
    decreases ms.len(),
{
    if ms.len() == 0 {
        Seq::empty()
    } else {
        let rest = untagged_ids(ms.drop_last());
        if ms.last().tags.len() == 0 {
            rest.push(ms.last().id)
        } else {
            rest
        }
    }
}

/// A prefix of the memories has no more untagged memories than all of them.
proof fn lemma_untagged_prefix(ms: Seq<MemoryView>, k: int)
    requires
        0 <= k <= ms.len(),
    ensures
        untagged_ids(ms.take(k)).len() <= untagged_ids(ms).len(),
    decreases ms.len(),
{
    if k == ms.len() {
        assert(ms.take(k) =~= ms);
    } else {
        assert(ms.take(k) =~= ms.drop_last().take(k));
        lemma_untagged_prefix(ms.drop_last(), k);
    }
}

/// One anomaly for each memory without tags, in order: a low-severity
/// missing-tags anomaly under a fresh identifier, detected now.
pub fn detect_missing_tags(memories: &[Memory]) -> (r: Option<Vec<MemoryAnomaly>>)
    ensures
        untagged_ids(memory_views(memories@)).len() == 0 ==> (r matches Some(v) && v@.len() == 0),
        r matches Some(v) ==> v@.len() == untagged_ids(memory_views(memories@)).len(),
        r matches Some(v) ==> forall|j: int| 0 <= j < v@.len() ==> {
            &&& (#[trigger] v@[j]).memory_id@ == untagged_ids(memory_views(memories@))[j]
            &&& v@[j].anomaly_type == AnomalyType::MissingTags
            &&& v@[j].severity == AnomalySeverity::Low
            &&& v@[j].description@ == "Memory has no tags, reducing discoverability"@
            &&& uuid_shaped(v@[j].anomaly_id@)
        },
{
    let ghost ms = memory_views(memories@);
    let mut out: Vec<MemoryAnomaly> = Vec::new();
    let mut i: usize = 0;
    while i < memories.len()
        invariant
            i <= memories@.len(),
            ms == memory_views(memories@),
            out@.len() == untagged_ids(ms.take(i as int)).len(),
            forall|j: int| 0 <= j < out@.len() ==> {
                &&& (#[trigger] out@[j]).memory_id@ == untagged_ids(ms.take(i as int))[j]
                &&& out@[j].anomaly_type == AnomalyType::MissingTags
                &&& out@[j].severity == AnomalySeverity::Low
                &&& out@[j].description@ == "Memory has no tags, reducing discoverability"@
                &&& uuid_shaped(out@[j].anomaly_id@)
            },
        decreases memories.len() - i,
    {
        assert(ms.take(i + 1).drop_last() =~= ms.take(i as int));
        assert(ms.take(i + 1).last() == memories@[i as int]@);
        if memories[i].tags.len() == 0 {
            let anomaly_id = match new_uuid() {
                Some(id) => id,
                None => {
                    proof {
                        lemma_untagged_prefix(ms, i + 1);
                    }
                    return None;
                },
            };
            out.push(MemoryAnomaly {
                anomaly_id,
                anomaly_type: AnomalyType::MissingTags,
                memory_id: memories[i].id.clone(),
                description: String::from_str("Memory has no tags, reducing discoverability"),
                severity: AnomalySeverity::Low,
                detected_at: now(),
            });
        }
        i += 1;
    }
    assert(ms.take(memories@.len() as int) =~= ms);
    Some(out)
}

} // verus!

//! The decisions of gathering related memories through the graph: which ends
//! of a relationship to filter on, which end is the other memory, which found
//! memories join the results, when memories sharing entities are looked for,
//! and how many are kept; and which graphs a graph search keeps.

use vstd::prelude::*;
use crate::memory::graph_analysis::ids_of;
use crate::models::memory::Memory;
use crate::text::{opt_view, str_eq};

verus! {

/// How many related memories are given back at most.
pub const RELATED_MEMORY_LIMIT: usize = 50;

/// The ends of the relationships to look up for a memory, by direction: the
/// memory as source for `outgoing` or `both`, as target for `incoming` or
/// `both`.
pub fn relationship_ends(memory_id: &str, direction: &str) -> (r: (Option<String>, Option<String>))
    ensures
        opt_view(r.0) == if direction@ == "outgoing"@ || direction@ == "both"@ {
            Some(memory_id@)
        } else {
            None
        },
        opt_view(r.1) == if direction@ == "incoming"@ || direction@ == "both"@ {
            Some(memory_id@)
        } else {
            None
        },
{
    let both = str_eq(direction, "both");
    let source = if str_eq(direction, "outgoing") || both { Some(String::from_str(memory_id)) } else { None };
    let target = if str_eq(direction, "incoming") || both { Some(String::from_str(memory_id)) } else { None };
    (source, target)
}

/// The other end of a relationship that involves the memory `memory_id`: the
/// target when the memory is the source, else the source.
pub fn other_end<'a>(source_id: &'a str, target_id: &'a str, memory_id: &str) -> (r: &'a str)
    ensures
        r@ == if source_id@ == memory_id@ { target_id@ } else { source_id@ },
{
    if str_eq(source_id, memory_id) {
        target_id
    } else {
        source_id
    }
}

/// Whether any of `ms` has identifier `id`.
fn has_id(ms: &Vec<Memory>, id: &str) -> (r: bool)
    ensures
        r == ids_of(ms@).contains(id@),
{
    let mut i: usize = 0;
    while i < ms.len()
        invariant
            i <= ms@.len(),
            forall|j: int| 0 <= j < i ==> ids_of(ms@)[j] != id@,
        decreases ms.len() - i,
    {
        assert(ids_of(ms@)[i as int] == ms@[i as int].id@);
        if str_eq(ms[i].id.as_str(), id) {
            return true;
        }
        i += 1;
    }
    false
}

/// Add a memory found through the graph to the results, unless it is the
/// memory the search started from or the results already hold one with its
/// identifier.
pub fn add_related(results: &mut Vec<Memory>, memory: Memory, start_id: &str)
    ensures
        if memory.id@ != start_id@ && !ids_of(old(results)@).contains(memory.id@) {
            final(results)@ == old(results)@.push(memory)
        } else {
            final(results)@ == old(results)@
        },
{
    if !str_eq(memory.id.as_str(), start_id) && !has_id(results, memory.id.as_str()) {
        results.push(memory);
    }
}

/// Keep the first `RELATED_MEMORY_LIMIT` related memories.
pub fn limit_related(results: &mut Vec<Memory>)
    ensures
        final(results)@ == if old(results)@.len() > RELATED_MEMORY_LIMIT {
            old(results)@.take(RELATED_MEMORY_LIMIT as int)
        } else {
            old(results)@
        },
{
    let ghost before = results@;
    assert(before.take(before.len() as int) =~= before);
    while results.len() > RELATED_MEMORY_LIMIT
        invariant
            results@.len() <= before.len(),
            results@ == before.take(results@.len() as int),
            before.len() > RELATED_MEMORY_LIMIT ==> results@.len() >= RELATED_MEMORY_LIMIT,
            before.len() <= RELATED_MEMORY_LIMIT ==> results@.len() == before.len(),
        decreases results.len(),
    {
        results.pop();
        assert(results@ =~= before.take(results@.len() as int));
    }
}

/// How many of a memory's entities are followed to memories sharing them.
pub const COOCCURRENCE_ENTITIES: usize = 5;

/// How many memories are taken from each entity followed.
pub const COOCCURRENCE_MEMORIES_PER_ENTITY: usize = 10;

/// Whether memories sharing entities with the start memory are looked for:
/// only when no relationship type was asked for and nothing was found through
/// the graph.
pub fn use_cooccurrence(relationship_type: Option<&str>, found: usize) -> (b: bool)
    ensures
        b == (relationship_type is None && found == 0),
{
    relationship_type.is_none() && found == 0
}

/// How many of a matching entity's memories a graph around it holds.
pub const GRAPH_MEMORIES_PER_ENTITY: usize = 10;

/// How many of a matching entity's relationships a graph around it holds.
pub const GRAPH_RELATIONSHIPS_PER_ENTITY: usize = 20;

/// The limits of a graph search: how many graphs it gives back (5 unless
/// asked), how many entities and memories it searches for as centres (twice
/// that), and how many memory-centred graphs it builds (half of it).
pub fn graph_search_limits(limit: Option<usize>) -> (r: (usize, usize, usize))
    requires
        limit matches Some(l) ==> l * 2 <= usize::MAX,
    ensures
        r.0 == match limit {
            Some(l) => l,
            None => 5,
        },
        r.1 == r.0 * 2,
        r.2 == r.0 / 2,
{
    let l = match limit {
        Some(l) => l,
        None => 5,
    };
    (l, l * 2, l / 2)
}

/// Whether a graph is worth giving back: more than one memory, or some
/// relationship.
pub fn keep_graph(memory_count: usize, relationship_count: usize) -> (b: bool)
    ensures
        b == (memory_count > 1 || relationship_count > 0),
{
    memory_count > 1 || relationship_count > 0
}

/// Why a graph centred on a matching entity was found.
pub fn entity_graph_match_reason(entity_id: &str) -> (s: String)
    ensures
        s@ == "graph centered on entity '"@ + entity_id@ + "' matching query"@,
{
    String::from_str("graph centered on entity '").concat(entity_id).concat("' matching query")
}

/// Why a graph centred on a matching memory was found.
pub fn memory_graph_match_reason() -> (s: String)
    ensures
        s@ == "graph centered on memory matching query"@,
{
    String::from_str("graph centered on memory matching query")
}

} // verus!

use locai::memory::traversal::MemoryTraversal;
use locai::models::memory::{Memory, MemoryBuilder};

fn memory(id: &str) -> Memory {
    let mut m = MemoryBuilder::new_with_content(id).unwrap().build();
    m.id = id.to_string();
    m
}

/// a is similar to b and c, b to a and d, c to d, d to nothing.
fn similar_to(m: &Memory) -> Vec<Memory> {
    match m.id.as_str() {
        "a" => vec![memory("b"), memory("c")],
        "b" => vec![memory("a"), memory("d")],
        "c" => vec![memory("d")],
        _ => Vec::new(),
    }
}

fn walk(start: Option<Memory>, max_depth: usize) -> Vec<String> {
    let mut t = MemoryTraversal::new(start, max_depth);
    while let Some(current) = t.next() {
        t.absorb(similar_to(&current));
    }
    t.into_result().into_iter().map(|m| m.id).collect()
}

#[test]
fn traversal_is_breadth_first_and_visits_each_memory_once() {
    assert_eq!(walk(Some(memory("a")), 3), vec!["a", "b", "c", "d"]);
    assert_eq!(walk(Some(memory("a")), 10), vec!["a", "b", "c", "d"]);
}

#[test]
fn traversal_stops_at_the_depth_limit() {
    assert_eq!(walk(Some(memory("a")), 2), vec!["a", "b", "c"]);
    assert_eq!(walk(Some(memory("a")), 1), vec!["a"]);
    assert!(walk(Some(memory("a")), 0).is_empty());
}

#[test]
fn traversal_without_a_start_visits_nothing() {
    assert!(walk(None, 5).is_empty());
}

#[test]
fn traversal_queues_only_unvisited_memories() {
    let mut t = MemoryTraversal::new(Some(memory("a")), 3);
    let first = t.next().unwrap();
    assert_eq!(first.id, "a");
    assert!(t.has_visited("a"));
    assert!(!t.has_visited("b"));
    t.absorb(vec![memory("a"), memory("b")]);
    assert_eq!(t.queue.len(), 2);
    assert_eq!(t.queue[1].0.id, "b");
    assert_eq!(t.queue[1].1, 1);
    assert_eq!(t.next().unwrap().id, "b");
    assert_eq!(t.depth, 1);
    assert!(t.next().is_none());
    assert_eq!(t.head, 2);
}

use locai::memory::graph_analysis::{cluster_positions, dedup_related_memories, split_influences};
use locai::time::Timestamp;

fn memory_at(id: &str, secs: i64, content: &str) -> Memory {
    let mut m = MemoryBuilder::new_with_content(content).unwrap().build();
    m.id = id.to_string();
    m.created_at = Timestamp { secs, nanos: 0 };
    m
}

#[test]
fn related_memories_are_deduplicated_by_identifier() {
    let found = vec![
        memory_at("m3", 1, "first m3"),
        memory_at("target", 1, "self"),
        memory_at("m1", 1, "first m1"),
        memory_at("m3", 1, "second m3"),
        memory_at("m2", 1, "m2"),
        memory_at("m1", 1, "second m1"),
    ];
    let related = dedup_related_memories(found, "target");
    let ids: Vec<&str> = related.iter().map(|m| m.id.as_str()).collect();
    assert_eq!(ids, vec!["m1", "m2", "m3"]);
    assert_eq!(related[0].content, "first m1");
    assert_eq!(related[2].content, "first m3");
    assert!(dedup_related_memories(Vec::new(), "target").is_empty());
}

#[test]
fn influences_are_split_by_creation_time() {
    let related = vec![memory_at("early", 5, "a"), memory_at("same", 10, "b"), memory_at("late", 20, "c"), memory_at("earlier", 1, "d")];
    let (influencing, influenced) = split_influences(&related, Timestamp { secs: 10, nanos: 0 });
    assert_eq!(influencing, vec!["early".to_string(), "earlier".to_string()]);
    assert_eq!(influenced, vec!["late".to_string()]);
}

#[test]
fn clusters_are_greedy_and_cover_every_memory_once() {
    // 0 ~ 2, 1 ~ 3, 0 ~ 3 (but 3 is taken by 0 first), 4 alone
    let n = 5;
    let mut similar = vec![vec![false; n]; n];
    for (a, b) in [(0, 2), (1, 3), (0, 3)] {
        similar[a][b] = true;
        similar[b][a] = true;
    }
    for (i, row) in similar.iter_mut().enumerate() {
        row[i] = true;
    }
    let clusters = cluster_positions(&similar);
    assert_eq!(clusters, vec![vec![0, 2, 3], vec![1], vec![4]]);
    assert!(cluster_positions(&Vec::new()).is_empty());
    let mut all: Vec<usize> = clusters.into_iter().flatten().collect();
    all.sort();
    assert_eq!(all, vec![0, 1, 2, 3, 4]);
}

use locai::memory::graph_operations::{add_related, limit_related, other_end, relationship_ends};

#[test]
fn graph_lookups_follow_the_direction() {
    assert_eq!(relationship_ends("m1", "outgoing"), (Some("m1".to_string()), None));
    assert_eq!(relationship_ends("m1", "incoming"), (None, Some("m1".to_string())));
    assert_eq!(relationship_ends("m1", "both"), (Some("m1".to_string()), Some("m1".to_string())));
    assert_eq!(relationship_ends("m1", "sideways"), (None, None));
    assert_eq!(other_end("m1", "m2", "m1"), "m2");
    assert_eq!(other_end("m2", "m1", "m1"), "m2");
}

#[test]
fn related_results_skip_the_start_and_repeats_and_stop_at_fifty() {
    let mut results = Vec::new();
    add_related(&mut results, memory("a"), "start");
    add_related(&mut results, memory("start"), "start");
    add_related(&mut results, memory("a"), "start");
    add_related(&mut results, memory("b"), "start");
    let ids: Vec<&str> = results.iter().map(|m| m.id.as_str()).collect();
    assert_eq!(ids, vec!["a", "b"]);
    let mut many: Vec<Memory> = (0..60).map(|i| memory(&format!("m{}", i))).collect();
    limit_related(&mut many);
    assert_eq!(many.len(), 50);
    assert_eq!(many[49].id, "m49");
    limit_related(&mut results);
    assert_eq!(results.len(), 2);
}

use locai::error::LocaiError;
use locai::json::JsonValue;
use locai::memory::graph_operations::{
    entity_graph_match_reason, graph_search_limits, keep_graph, memory_graph_match_reason, use_cooccurrence,
    COOCCURRENCE_ENTITIES, COOCCURRENCE_MEMORIES_PER_ENTITY, GRAPH_MEMORIES_PER_ENTITY, GRAPH_RELATIONSHIPS_PER_ENTITY,
};
use locai::memory::operations::{
    extractors_added_later, plan_extraction, store_outcome, update_outcome, EntityExtractionSettings, ExtractionPlan,
    ExtractorKind, ExtractorSetting,
};
use locai::memory::search_extensions::{matching_entities, EntityRecord};

#[test]
fn store_and_update_report_only_what_storage_said() {
    assert_eq!(store_outcome(Ok(memory("m9"))), Ok("m9".to_string()));
    assert_eq!(
        store_outcome(Err("disk full".to_string())),
        Err(LocaiError::Storage("Failed to store memory: disk full".to_string()))
    );
    assert_eq!(update_outcome(Ok(memory("m9"))), Ok(true));
    assert_eq!(
        update_outcome(Err("gone".to_string())),
        Err(LocaiError::Storage("Failed to update memory: gone".to_string()))
    );
}

#[test]
fn extraction_set_up_follows_the_settings() {
    let setting = |enabled, kind| ExtractorSetting { enabled, kind };
    let settings = EntityExtractionSettings {
        enabled: true,
        extractors: vec![
            setting(true, ExtractorKind::Regex),
            setting(false, ExtractorKind::Regex),
            setting(true, ExtractorKind::Hybrid { enable_basic: true }),
            setting(true, ExtractorKind::Hybrid { enable_basic: false }),
            setting(true, ExtractorKind::Spacy),
            setting(true, ExtractorKind::Regex),
        ],
        deduplicate_entities: true,
        automatic_relationships: false,
    };
    assert_eq!(
        plan_extraction(&settings),
        ExtractionPlan { basic_extractors: 2, entity_resolver: true, relationship_creator: false }
    );
    assert_eq!(extractors_added_later(&settings), 3);
    let off = EntityExtractionSettings { enabled: false, extractors: Vec::new(), deduplicate_entities: true, automatic_relationships: true };
    assert_eq!(
        plan_extraction(&off),
        ExtractionPlan { basic_extractors: 0, entity_resolver: false, relationship_creator: true }
    );
    assert_eq!(extractors_added_later(&off), 0);
    let empty = EntityExtractionSettings { enabled: true, extractors: Vec::new(), deduplicate_entities: false, automatic_relationships: false };
    assert_eq!(extractors_added_later(&empty), 1);
}

#[test]
fn graph_search_decisions() {
    assert!(use_cooccurrence(None, 0));
    assert!(!use_cooccurrence(Some("knows"), 0));
    assert!(!use_cooccurrence(None, 3));
    assert_eq!(graph_search_limits(None), (5, 10, 2));
    assert_eq!(graph_search_limits(Some(7)), (7, 14, 3));
    assert!(keep_graph(2, 0) && keep_graph(1, 1) && !keep_graph(1, 0) && !keep_graph(0, 0));
    assert_eq!(entity_graph_match_reason("e7"), "graph centered on entity 'e7' matching query");
    assert_eq!(memory_graph_match_reason(), "graph centered on memory matching query");
    assert_eq!((COOCCURRENCE_ENTITIES, COOCCURRENCE_MEMORIES_PER_ENTITY), (5, 10));
    assert_eq!((GRAPH_MEMORIES_PER_ENTITY, GRAPH_RELATIONSHIPS_PER_ENTITY), (10, 20));
}

#[test]
fn only_matching_entities_are_kept_in_order() {
    let record = |id: &str, t: &str, name: &str| EntityRecord {
        id: id.to_string(),
        entity_type: t.to_string(),
        properties: JsonValue::Object(vec![("name".to_string(), JsonValue::String(name.to_string()))]),
    };
    let entities = vec![record("e0", "person", "Alice"), record("e1", "dragon", "Smaug"), record("e2", "person", "Dragonfly")];
    let found = matching_entities(&entities, "dragon");
    let positions: Vec<usize> = found.iter().map(|(i, _)| *i).collect();
    assert_eq!(positions, vec![1, 2]);
    assert_eq!(found[0].1.match_reason, "type match");
    assert_eq!(found[1].1.match_reason, "name match");
    assert!(matching_entities(&entities, "wizard").is_empty());
}

use locai::json::{insert_entry, JsonNumber, JsonValue, NumberRepr};
use locai::memory::utils::{
    convert_db_event_to_memory, determine_memory_match_reason, matches_memory_filter_detailed,
    parse_memory_priority, parse_memory_type,
};
use locai::models::memory::{Memory, MemoryBuilder, MemoryPriority, MemoryType};
use locai::storage::filters::MemoryFilter;
use locai::time::{parse_rfc3339, F32Bits, OrderedFloat, Timestamp};

fn number(repr: NumberRepr, f: f64) -> JsonValue {
    JsonValue::Number(JsonNumber {
        repr,
        value: OrderedFloat::from_f64_bits(f.to_bits()),
        integral: f.fract() == 0.0,
        text: format!("{}", f),
        single: F32Bits { bits: (f as f32).to_bits() },
    })
}

fn text(s: &str) -> JsonValue {
    JsonValue::String(s.to_string())
}

fn object(pairs: Vec<(&str, JsonValue)>) -> JsonValue {
    let mut entries: Vec<(String, JsonValue)> = Vec::new();
    for (k, v) in pairs {
        insert_entry(&mut entries, k, v);
    }
    JsonValue::Object(entries)
}

#[test]
fn memory_new_and_builder() {
    let m = Memory::new("id1".to_string(), "content".to_string(), MemoryType::Episodic);
    assert_eq!(m.source, "unknown");
    assert_eq!(m.priority, MemoryPriority::Normal);
    assert_eq!(m.access_count, 0);
    assert!(m.properties.is_object());
    assert!(!m.has_embedding());

    let m = MemoryBuilder::identity("I am a wizard").unwrap()
        .source("agent")
        .tags(vec!["a", "b"])
        .tag("b")
        .property("level", number(NumberRepr::PosInt(3), 3.0))
        .embedding(vec![F32Bits { bits: 1.5f32.to_bits() }])
        .build();
    assert_eq!(m.id.len(), 36);
    assert_eq!(m.memory_type, MemoryType::Identity);
    assert_eq!(m.priority, MemoryPriority::High);
    assert_eq!(m.tags, vec!["a", "b", "b"]);
    assert!(m.has_embedding());
    assert!(m.properties.get("level").unwrap().is_number());

    let m = MemoryBuilder::new("x".to_string(), "y".to_string())
        .critical_priority()
        .properties(vec![("k", text("1")), ("k", text("2")), ("a", JsonValue::Null)])
        .build();
    assert_eq!(m.priority, MemoryPriority::Critical);
    assert_eq!(m.properties.get("k").unwrap().as_str(), Some("2"));
    match &m.properties {
        JsonValue::Object(entries) => assert_eq!(entries.len(), 2),
        _ => panic!("properties are an object"),
    }
}

#[test]
fn memory_tags_and_access() {
    let mut m = Memory::new("id".to_string(), "c".to_string(), MemoryType::Fact);
    m.add_tag("x");
    m.add_tag("x");
    m.add_related_memory("other");
    m.add_related_memory("other");
    assert_eq!(m.tags, vec!["x"]);
    assert_eq!(m.related_memories, vec!["other"]);
    m.record_access();
    m.record_access();
    assert_eq!(m.access_count, 2);
    assert!(m.last_accessed.is_some());

    m.properties = text("not an object");
    m.set_property("k", JsonValue::Bool(true));
    assert!(matches!(m.properties.get("k"), Some(JsonValue::Bool(true))));
    m.set_property("a", JsonValue::Null);
    m.set_property("k", JsonValue::Bool(false));
    assert!(matches!(m.properties.get("k"), Some(JsonValue::Bool(false))));
    assert!(m.properties.get("a").unwrap().is_null());
}

#[test]
fn memory_type_parsing() {
    assert_eq!(parse_memory_type("fact"), MemoryType::Fact);
    assert_eq!(parse_memory_type("custom:note"), MemoryType::Custom("note".to_string()));
    assert_eq!(parse_memory_type("wisdom"), MemoryType::Custom("wisdom".to_string()));
    assert_eq!(MemoryType::from_str("WISDOM"), MemoryType::Wisdom);
    assert_eq!(MemoryType::from_str(&MemoryType::Custom("x".to_string()).to_string()), MemoryType::Custom("x".to_string()));
    assert_eq!(parse_memory_priority("high"), MemoryPriority::High);
    assert_eq!(parse_memory_priority("urgent"), MemoryPriority::Normal);
}

#[test]
fn memory_filter_detailed() {
    let mut m = Memory::new("id".to_string(), "The Quick Brown Fox".to_string(), MemoryType::Fact);
    m.add_tag("animal");
    m.add_tag("story");
    let mut f = MemoryFilter::default();
    assert!(matches_memory_filter_detailed(&m, &f));
    f.memory_type = Some("fact".to_string());
    f.content = Some("quick brown".to_string());
    f.tags = Some(vec!["story".to_string()]);
    f.source = Some("unknown".to_string());
    assert!(matches_memory_filter_detailed(&m, &f));
    f.tags = Some(vec!["story".to_string(), "missing".to_string()]);
    assert!(!matches_memory_filter_detailed(&m, &f));
    f.tags = None;
    f.created_after = Some(Timestamp { secs: m.created_at.secs + 10, nanos: 0 });
    assert!(!matches_memory_filter_detailed(&m, &f));
    f.created_after = Some(m.created_at);
    f.created_before = Some(m.created_at);
    assert!(matches_memory_filter_detailed(&m, &f));
    f.memory_type = Some("episodic".to_string());
    assert!(!matches_memory_filter_detailed(&m, &f));
}

#[test]
fn memory_match_reasons() {
    let mut m = Memory::new("id".to_string(), "Rust was created by Mozilla".to_string(), MemoryType::Fact);
    assert_eq!(determine_memory_match_reason(&m, "MOZILLA"), "content match");
    m.add_tag("mozilla-research");
    m.source = "Mozilla docs".to_string();
    assert_eq!(determine_memory_match_reason(&m, "mozilla"), "content match, tag match, source match");
    assert_eq!(determine_memory_match_reason(&m, "docs"), "source match");
    assert_eq!(determine_memory_match_reason(&m, "python"), "semantic similarity");
}

#[test]
fn rfc3339_parsing() {
    assert_eq!(parse_rfc3339("1970-01-01T00:00:10Z"), Some(Timestamp { secs: 10, nanos: 0 }));
    assert_eq!(parse_rfc3339("1970-01-01T01:00:00+01:00"), Some(Timestamp { secs: 0, nanos: 0 }));
    assert_eq!(parse_rfc3339("2024-02-30"), None);
}

#[test]
fn db_record_to_memory() {
    let record = object(vec![
        ("id", text("m1")),
        ("content", text("hello")),
        ("created_at", text("1970-01-01T00:01:40.5Z")),
        (
            "metadata",
            object(vec![
                ("memory_type", text("custom:note")),
                ("access_count", number(NumberRepr::PosInt(4_294_967_297), 4_294_967_297.0)),
                ("priority", text("low")),
                ("tags", JsonValue::Array(vec![text("a"), JsonValue::Null, text("b")])),
                ("expires_at", text("not a time")),
                ("related_memories", JsonValue::Array(vec![text("m0")])),
            ]),
        ),
        (
            "embedding",
            JsonValue::Array(vec![number(NumberRepr::Float, 0.5), text("x"), number(NumberRepr::PosInt(2), 2.0)]),
        ),
    ]);
    let m = convert_db_event_to_memory(&record).unwrap();
    assert_eq!(m.id, "m1");
    assert_eq!(m.content, "hello");
    assert_eq!(m.created_at, Timestamp { secs: 100, nanos: 500_000_000 });
    assert_eq!(m.memory_type, MemoryType::Custom("note".to_string()));
    assert_eq!(m.access_count, 1);
    assert_eq!(m.priority, MemoryPriority::Low);
    assert_eq!(m.tags, vec!["a", "b"]);
    assert_eq!(m.source, "unknown");
    assert!(m.expires_at.is_none());
    assert!(m.last_accessed.is_none());
    assert!(m.properties.is_object());
    assert_eq!(m.related_memories, vec!["m0"]);
    let emb = m.embedding.unwrap();
    assert_eq!(emb.len(), 2);
    assert_eq!(emb[0].bits, 0.5f32.to_bits());
    assert_eq!(emb[1].bits, 2.0f32.to_bits());

    let no_meta = object(vec![("id", text("m2")), ("content", text("c"))]);
    let m = convert_db_event_to_memory(&no_meta).unwrap();
    assert_eq!(m.memory_type, MemoryType::Episodic);
    assert_eq!(m.priority, MemoryPriority::Normal);
    assert!(m.embedding.is_none());

    assert!(convert_db_event_to_memory(&object(vec![("id", text("m3"))])).is_none());
    assert!(convert_db_event_to_memory(&JsonValue::Null).is_none());
}

use locai::memory::operations::{memory_vector, memory_vector_id, plan_vector_update, VectorLookup, VectorUpdate};

#[test]
fn vector_records_follow_the_embedding() {
    let mut m = locai::models::memory::MemoryBuilder::new("mem-1".to_string(), "a memory".to_string()).build();
    m.created_at = locai::time::Timestamp { secs: 100, nanos: 0 };
    assert_eq!(memory_vector_id("mem-1"), "mem_mem-1");
    assert!(memory_vector(&m, m.created_at).is_none());
    match plan_vector_update(&m, VectorLookup::Missing) {
        VectorUpdate::Delete(id) => assert_eq!(id, "mem_mem-1"),
        other => panic!("unexpected {:?}", other),
    }
    let e = vec![locai::time::F32Bits { bits: 1.0f32.to_bits() }, locai::time::F32Bits { bits: 2.0f32.to_bits() }];
    m.embedding = Some(e.clone());
    let earlier = locai::time::Timestamp { secs: 50, nanos: 7 };
    match plan_vector_update(&m, VectorLookup::Found(earlier)) {
        VectorUpdate::Upsert(v) => {
            assert_eq!(v.id, "mem_mem-1");
            assert_eq!(v.created_at, earlier);
            assert_eq!(v.dimension, 2);
            assert_eq!(v.vector, e);
            assert_eq!(v.source_id, Some("mem-1".to_string()));
        },
        other => panic!("unexpected {:?}", other),
    }
    match plan_vector_update(&m, VectorLookup::Missing) {
        VectorUpdate::Add(v) => assert_eq!(v.created_at, m.created_at),
        other => panic!("unexpected {:?}", other),
    }
    assert!(matches!(plan_vector_update(&m, VectorLookup::Failed), VectorUpdate::Nothing));
}

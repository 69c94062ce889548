use locai::memory::analytics::{analyze_memory_types, detect_missing_tags, AnomalySeverity, AnomalyType};
use locai::models::memory::{Memory, MemoryBuilder, MemoryType};

fn memory(id: &str, memory_type: MemoryType, tags: Vec<&str>) -> Memory {
    let mut m = MemoryBuilder::new_with_content("content").unwrap().memory_type(memory_type).tags(tags).build();
    m.id = id.to_string();
    m
}

#[test]
fn memory_types_are_counted_in_order_of_appearance() {
    let memories = vec![
        memory("a", MemoryType::Fact, vec!["x"]),
        memory("b", MemoryType::Custom("lore".to_string()), vec![]),
        memory("c", MemoryType::Fact, vec![]),
        memory("d", MemoryType::Custom("lore".to_string()), vec!["y"]),
        memory("e", MemoryType::Custom("myth".to_string()), vec!["z"]),
    ];
    let counts = analyze_memory_types(&memories);
    assert_eq!(
        counts,
        vec![
            (MemoryType::Fact, 2),
            (MemoryType::Custom("lore".to_string()), 2),
            (MemoryType::Custom("myth".to_string()), 1),
        ]
    );
    assert!(analyze_memory_types(&[]).is_empty());
}

#[test]
fn memories_without_tags_are_anomalies() {
    let memories = vec![
        memory("a", MemoryType::Fact, vec!["x"]),
        memory("b", MemoryType::Fact, vec![]),
        memory("c", MemoryType::Event, vec![]),
    ];
    let anomalies = detect_missing_tags(&memories).unwrap();
    assert_eq!(anomalies.len(), 2);
    assert_eq!(anomalies[0].memory_id, "b");
    assert_eq!(anomalies[1].memory_id, "c");
    assert_eq!(anomalies[0].anomaly_type, AnomalyType::MissingTags);
    assert_eq!(anomalies[0].severity, AnomalySeverity::Low);
    assert_eq!(anomalies[0].description, "Memory has no tags, reducing discoverability");
    assert_ne!(anomalies[0].anomaly_id, anomalies[1].anomaly_id);
}

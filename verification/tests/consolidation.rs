use locai::memory::consolidation::{
    group_pairs, tag_id_pairs, type_id_pairs, ConnectionAnalyzer, ConnectionType, ConsolidationConfig, MemoryPattern,
    PatternDetector, PatternType, WisdomExtractor, WisdomType,
};
use locai::models::memory::MemoryType;
use locai::memory::graph_analysis::{calculate_temporal_span, identify_community_theme, involves_all_entities};
use locai::models::memory::{Memory, MemoryBuilder};
use locai::time::{F32Bits, Timestamp};

fn memory(id: &str, secs: i64, tags: Vec<&str>) -> Memory {
    let mut m = MemoryBuilder::new_with_content("content").unwrap().tags(tags).build();
    m.id = id.to_string();
    m.created_at = Timestamp { secs, nanos: 0 };
    m
}

fn pattern(kind: PatternType) -> MemoryPattern {
    MemoryPattern {
        pattern_id: "p1".to_string(),
        pattern_type: kind,
        description: "dragons".to_string(),
        related_memory_ids: vec!["a".to_string()],
        confidence: F32Bits { bits: 0.9f32.to_bits() },
        significance: F32Bits { bits: 0.5f32.to_bits() },
    }
}

#[test]
fn patterns_yield_wisdom_by_kind() {
    let extractor = WisdomExtractor::new();
    let recurring = extractor.extract_pattern_wisdom(&pattern(PatternType::Recurring), &[]).unwrap();
    assert_eq!(recurring.len(), 1);
    assert_eq!(recurring[0].wisdom_type, WisdomType::Observation);
    assert_eq!(recurring[0].description, "Recurring pattern identified: dragons");
    assert_eq!(recurring[0].supporting_patterns, vec!["p1".to_string()]);
    assert_eq!(f32::from_bits(recurring[0].confidence.bits), 0.9);
    assert_eq!(f32::from_bits(recurring[0].practical_value.bits), 0.7);
    assert_eq!(recurring[0].insight_id.len(), 36);
    let temporal = extractor.extract_pattern_wisdom(&pattern(PatternType::Temporal), &[]).unwrap();
    assert_eq!(temporal[0].wisdom_type, WisdomType::Principle);
    assert_eq!(temporal[0].description, "Sequential learning and development occurs over time");
    assert_eq!(f32::from_bits(temporal[0].practical_value.bits), 0.6);
    let thematic = extractor.extract_pattern_wisdom(&pattern(PatternType::Thematic), &[]).unwrap();
    assert_eq!(thematic[0].wisdom_type, WisdomType::Strategy);
    assert_eq!(thematic[0].description, "Focus area identified: dragons");
    assert_eq!(f32::from_bits(thematic[0].practical_value.bits), 0.8);
    assert!(extractor.extract_pattern_wisdom(&pattern(PatternType::Causal), &[]).unwrap().is_empty());
}

#[test]
fn temporal_pattern_orders_memories_oldest_first() {
    let detector = PatternDetector::new();
    let config = ConsolidationConfig::default();
    assert_eq!(config.min_memories_for_pattern, 3);
    let two = vec![memory("a", 5, vec![]), memory("b", 1, vec![])];
    assert!(detector.detect_temporal_patterns(&two, &config).unwrap().is_empty());
    let four = vec![memory("a", 5, vec![]), memory("b", 1, vec![]), memory("c", 5, vec![]), memory("d", 3, vec![])];
    let patterns = detector.detect_temporal_patterns(&four, &config).unwrap();
    assert_eq!(patterns.len(), 1);
    assert_eq!(patterns[0].pattern_type, PatternType::Temporal);
    assert_eq!(patterns[0].description, "Sequential memory formation pattern");
    assert_eq!(patterns[0].related_memory_ids, vec!["b", "d", "a", "c"]);
    assert_eq!(f32::from_bits(patterns[0].confidence.bits), 0.6);
    assert_eq!(f32::from_bits(patterns[0].significance.bits), 0.5);
}

#[test]
fn pairs_connect_by_shared_tags_or_time() {
    let analyzer = ConnectionAnalyzer::new();
    let a = memory("a", 0, vec!["war", "king", "war"]);
    let b = memory("b", 100_000, vec!["war", "peace"]);
    let found = analyzer.find_pair_connection(&a, &b).unwrap();
    assert_eq!(found.connection_type, ConnectionType::Thematic);
    assert_eq!(found.shared_tags, vec!["war".to_string(), "war".to_string()]);
    assert_eq!(found.description, "Shared themes: war, war");
    let c = memory("c", 3_599, vec!["sea"]);
    let close = analyzer.find_pair_connection(&a, &c).unwrap();
    assert_eq!(close.connection_type, ConnectionType::Temporal);
    assert_eq!(close.description, "Created in close temporal proximity");
    let d = memory("d", 3_600, vec!["sea"]);
    assert!(analyzer.find_pair_connection(&a, &d).is_none());
}

#[test]
fn community_span_and_theme() {
    let community = vec![
        memory("a", 86_400 * 3 + 5, vec!["war", "king"]),
        memory("b", 10, vec!["king"]),
        memory("c", 86_400, vec!["king", "sea"]),
    ];
    let span = calculate_temporal_span(&community);
    assert_eq!(span.start.secs, 10);
    assert_eq!(span.end.secs, 86_400 * 3 + 5);
    assert_eq!(span.duration_days, 2);
    assert_eq!(identify_community_theme(&community), "king");
    let untagged = vec![memory("x", 0, vec![])];
    assert_eq!(identify_community_theme(&untagged), "general");
    let empty = calculate_temporal_span(&[]);
    assert_eq!(empty.start, empty.end);
    assert_eq!(empty.duration_days, 0);
}

#[test]
fn shared_memories_mention_every_entity() {
    let mut m = memory("m", 0, vec![]);
    m.content = "Alice met BOB at the inn".to_string();
    assert!(involves_all_entities(&m, &vec!["alice".to_string(), "Bob".to_string()]));
    assert!(!involves_all_entities(&m, &vec!["alice".to_string(), "carol".to_string()]));
    assert!(involves_all_entities(&m, &Vec::new()));
}

fn pairs(list: &[(&str, &str)]) -> Vec<(String, String)> {
    list.iter().map(|(k, v)| (k.to_string(), v.to_string())).collect()
}

#[test]
fn pairs_group_by_first_appearance() {
    let groups = group_pairs(&pairs(&[("war", "a"), ("king", "a"), ("war", "b"), ("sea", "c"), ("war", "a")]));
    assert_eq!(
        groups,
        vec![
            ("war".to_string(), vec!["a".to_string(), "b".to_string(), "a".to_string()]),
            ("king".to_string(), vec!["a".to_string()]),
            ("sea".to_string(), vec!["c".to_string()]),
        ]
    );
    assert!(group_pairs(&Vec::new()).is_empty());
}

#[test]
fn memories_pair_their_tags_and_types_with_their_ids() {
    let mut a = memory("a", 0, vec!["x", "y"]);
    a.memory_type = MemoryType::Custom("quest".to_string());
    let b = memory("b", 0, vec!["x"]);
    assert_eq!(tag_id_pairs(&[a.clone(), b.clone()]), pairs(&[("x", "a"), ("y", "a"), ("x", "b")]));
    assert_eq!(type_id_pairs(&[a, b]), pairs(&[("custom:quest", "a"), ("fact", "b")]));
}

#[test]
fn wisdom_comes_from_confident_patterns() {
    let extractor = WisdomExtractor::new();
    let config = ConsolidationConfig::default();
    let mut low = pattern(PatternType::Recurring);
    low.confidence = F32Bits { bits: 0.5f32.to_bits() };
    let mut exact = pattern(PatternType::Thematic);
    exact.confidence = F32Bits { bits: 0.8f32.to_bits() };
    let high = pattern(PatternType::Temporal);
    let mut nan = pattern(PatternType::Recurring);
    nan.confidence = F32Bits { bits: f32::NAN.to_bits() };
    let wisdom = extractor.extract_wisdom(&[low, exact, high, nan, pattern(PatternType::Behavioral)], &[], &config).unwrap();
    let kinds: Vec<WisdomType> = wisdom.iter().map(|w| w.wisdom_type).collect();
    assert_eq!(kinds, vec![WisdomType::Strategy, WisdomType::Principle]);
}

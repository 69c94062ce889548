use locai::json::JsonValue;
use locai::memory::utils::{configure_message_memory, extract_message_properties, extract_message_tags};
use locai::memory::versioning::{ChangeType, MemoryChange, MemoryEvolution};
use locai::memory::TimeRange;
use locai::messaging::history::{is_message_memory, order_message_history};
use locai::messaging::types::Message;
use locai::models::memory::{MemoryBuilder, MemoryType};
use locai::time::{F32Bits, Timestamp};

fn at(secs: i64) -> Timestamp {
    Timestamp { secs, nanos: 0 }
}

fn stamped(topic: &str, secs: i64) -> Message {
    let mut m = Message::new(topic.to_string(), "sender".to_string(), "{}".to_string()).unwrap();
    m.timestamp = at(secs);
    m
}

#[test]
fn history_runs_newest_first_and_keeps_ties_in_order() {
    let messages = vec![
        stamped("a", 10),
        stamped("b", 30),
        stamped("c", 20),
        stamped("d", 30),
        stamped("e", 10),
    ];
    let ordered = order_message_history(messages, true, at(100));
    let topics: Vec<&str> = ordered.iter().map(|m| m.topic.as_str()).collect();
    assert_eq!(topics, vec!["b", "d", "c", "a", "e"]);
}

#[test]
fn history_drops_expired_unless_asked() {
    let expired = stamped("old", 5).expires_at(at(50));
    let live = stamped("live", 6).expires_at(at(500));
    let forever = stamped("forever", 7);
    let kept = order_message_history(vec![expired, live, forever], false, at(100));
    let topics: Vec<&str> = kept.iter().map(|m| m.topic.as_str()).collect();
    assert_eq!(topics, vec!["forever", "live"]);

    let expired = stamped("old", 5).expires_at(at(50));
    let all = order_message_history(vec![expired], true, at(100));
    assert_eq!(all.len(), 1);
    assert!(order_message_history(Vec::new(), false, at(0)).is_empty());
}

#[test]
fn message_memories_are_recognised_by_type() {
    // A custom type renders as `custom:` and its name, so a stored message
    // memory reads `custom:msg:...` and is not taken for a message.
    let m = MemoryBuilder::new_with_content("{}").unwrap().memory_type(MemoryType::Custom("msg:chat".to_string())).build();
    assert!(!is_message_memory(&m));
    let fact = MemoryBuilder::new_with_content("{}").unwrap().memory_type(MemoryType::Fact).build();
    assert!(!is_message_memory(&fact));
}

#[test]
fn message_memory_is_configured_from_the_message() {
    let mut message = Message::new("app:chat.room.general".to_string(), "bot".to_string(), "{}".to_string()).unwrap();
    message.tags = vec!["greeting".to_string()];
    message.recipients = vec!["alice".to_string()];
    let memory = configure_message_memory(MemoryBuilder::new_with_content("payload").unwrap(), &message).build();
    assert_eq!(memory.memory_type, MemoryType::Custom("msg:room.general".to_string()));
    assert_eq!(memory.source, "bot");
    assert_eq!(memory.tags, extract_message_tags(&message));
    let expected = JsonValue::Object(extract_message_properties(&message));
    assert!(memory.properties.equals(&expected));
    assert_eq!(memory.content, "payload");
}

fn change(description: &str, magnitude: f32) -> MemoryChange {
    MemoryChange {
        change_id: "c".to_string(),
        from_version: "v1".to_string(),
        to_version: "v2".to_string(),
        change_type: ChangeType::ContentUpdate,
        magnitude: F32Bits { bits: magnitude.to_bits() },
        description: description.to_string(),
        timestamp: at(0),
    }
}

#[test]
fn evolution_reports_significant_changes_and_triggers() {
    let mut evolution = MemoryEvolution {
        memory_id: "m".to_string(),
        original_version: None,
        current_version: None,
        version_history: Vec::new(),
        evolution_summary: String::new(),
        key_changes: vec![change("met the king", 0.5), change("lost a friend", -0.9)],
    };
    assert!(!evolution.has_significant_changes());
    assert_eq!(evolution.get_trigger_events(), vec!["met the king".to_string(), "lost a friend".to_string()]);
    evolution.key_changes.push(change("won the war", 0.75));
    assert!(evolution.has_significant_changes());
    evolution.key_changes = vec![change("nothing", f32::NAN)];
    assert!(!evolution.has_significant_changes());
}

#[test]
fn time_range_contains_its_ends() {
    let range = TimeRange::new(at(10), at(20));
    assert!(range.contains(at(10)));
    assert!(range.contains(at(20)));
    assert!(!range.contains(at(9)));
    assert!(!range.contains(Timestamp { secs: 20, nanos: 1 }));
    assert_eq!(range.duration(), 10_000_000_000);
    let day = TimeRange::last_days(1);
    assert_eq!(day.end.secs - day.start.secs, 86_400);
    let hours = TimeRange::last_hours(3);
    assert_eq!(hours.end.secs - hours.start.secs, 3 * 3_600);
    assert_eq!(hours.start.nanos, hours.end.nanos);
}

use locai::error::LocaiError;
use locai::memory::versioning::{
    classify_change_type, describe_change, extract_context, parse_memory_version, parse_version_type,
    version_memory_builder, MemoryVersion, VersionMetadata, VersionType,
};
use locai::messaging::types::MessageId;
use locai::messaging::websocket::{
    cross_app_envelope, read_auth_reply, read_history_reply, read_send_reply, route_server_message, websocket_url,
    ReplyError, ServerMessage, ServerRoute,
};

#[test]
fn websocket_url_adds_the_endpoint_to_a_host() {
    assert_eq!(websocket_url("localhost:3000"), "ws://localhost:3000/api/ws");
    assert_eq!(websocket_url("ws://example.org/x"), "ws://example.org/x");
    assert_eq!(websocket_url("wss://secure"), "wss://secure");
}

#[test]
fn server_messages_are_routed() {
    let incoming = ServerMessage::IncomingMessage { message: stamped("t", 1), subscription_id: "sub1".to_string() };
    assert_eq!(route_server_message(&incoming), ServerRoute::Subscription("sub1".to_string()));
    let sent = ServerMessage::MessageSent { message_id: "m".to_string(), correlation_id: Some("c1".to_string()) };
    assert_eq!(route_server_message(&sent), ServerRoute::Response("c1".to_string()));
    let uncorrelated = ServerMessage::MessageSent { message_id: "m".to_string(), correlation_id: None };
    assert_eq!(route_server_message(&uncorrelated), ServerRoute::Ignore);
    let history = ServerMessage::MessageHistoryResponse { messages: Vec::new(), correlation_id: "c2".to_string() };
    assert_eq!(route_server_message(&history), ServerRoute::Response("c2".to_string()));
    let error = ServerMessage::Error { message: "x".to_string(), code: None, correlation_id: Some("c3".to_string()) };
    assert_eq!(route_server_message(&error), ServerRoute::Response("c3".to_string()));
    let auth = ServerMessage::AuthenticationResponse {
        success: true,
        message: String::new(),
        connection_id: "conn".to_string(),
    };
    assert_eq!(route_server_message(&auth), ServerRoute::Ignore);
    assert_eq!(route_server_message(&ServerMessage::Pong), ServerRoute::Ignore);
}

#[test]
fn replies_are_read() {
    let ok = ServerMessage::AuthenticationResponse { success: true, message: String::new(), connection_id: "c".to_string() };
    assert!(read_auth_reply(Some(ok)).is_ok());
    let refused = ServerMessage::AuthenticationResponse {
        success: false,
        message: "bad token".to_string(),
        connection_id: String::new(),
    };
    match read_auth_reply(Some(refused)) {
        Err(ReplyError::Failed(LocaiError::Authentication(m))) => assert_eq!(m, "Authentication failed: bad token"),
        other => panic!("unexpected {:?}", other),
    }
    match read_auth_reply(None) {
        Err(ReplyError::Failed(LocaiError::Connection(m))) => assert_eq!(m, "Auth response channel closed"),
        other => panic!("unexpected {:?}", other),
    }
    match read_auth_reply(Some(ServerMessage::Pong)) {
        Err(ReplyError::Unexpected(ServerMessage::Pong)) => {}
        other => panic!("unexpected {:?}", other),
    }
    let sent = ServerMessage::MessageSent { message_id: "id-7".to_string(), correlation_id: None };
    assert_eq!(read_send_reply(Some(sent)).unwrap(), MessageId::from_string("id-7".to_string()));
    let failed = ServerMessage::Error { message: "full".to_string(), code: None, correlation_id: None };
    match read_send_reply(Some(failed)) {
        Err(ReplyError::Failed(LocaiError::Other(m))) => assert_eq!(m, "Server error: full"),
        other => panic!("unexpected {:?}", other),
    }
    match read_send_reply(None) {
        Err(ReplyError::Failed(LocaiError::Connection(m))) => assert_eq!(m, "Send response channel closed"),
        other => panic!("unexpected {:?}", other),
    }
    let history = ServerMessage::MessageHistoryResponse { messages: vec![stamped("h", 3)], correlation_id: "c".to_string() };
    let messages = read_history_reply(Some(history)).unwrap();
    assert_eq!(messages.len(), 1);
    assert_eq!(messages[0].topic, "h");
    match read_history_reply(None) {
        Err(ReplyError::Failed(LocaiError::Connection(m))) => assert_eq!(m, "History response channel closed"),
        other => panic!("unexpected {:?}", other),
    }
}

#[test]
fn cross_app_messages_are_addressed() {
    let (topic, headers) = cross_app_envelope("dnd_campaign", "dice", "roll");
    assert_eq!(topic, "app:dice:roll");
    assert_eq!(
        headers,
        vec![
            ("source_app".to_string(), "dnd_campaign".to_string()),
            ("target_app".to_string(), "dice".to_string()),
            ("cross_app".to_string(), "true".to_string()),
        ]
    );
}

#[test]
fn version_types_are_parsed_by_name() {
    assert_eq!(parse_version_type("WisdomGain"), VersionType::WisdomGain);
    assert_eq!(parse_version_type("SkillDevelopment"), VersionType::SkillDevelopment);
    assert_eq!(parse_version_type("GradualEvolution"), VersionType::MemoryConsolidation);
}

#[test]
fn stored_versions_are_read_back() {
    let memory = version_memory_builder("mem-1", "brave now", VersionType::PersonalityEvolution).unwrap().build();
    assert_eq!(memory.content, "Version: brave now");
    assert_eq!(memory.memory_type, MemoryType::Identity);
    assert_eq!(memory.source, "memory_versioning");
    let version = parse_memory_version(&memory).unwrap();
    assert_eq!(version.memory_id, "mem-1");
    assert_eq!(version.version_type, VersionType::PersonalityEvolution);
    assert_eq!(version.version_id, memory.id);
    assert_eq!(version.change_reason, "Auto-generated");

    let plain = MemoryBuilder::new_with_content("x").unwrap().tags(vec!["version"]).build();
    let defaulted = parse_memory_version(&plain).unwrap();
    assert_eq!(defaulted.memory_id, "unknown");
    assert_eq!(defaulted.version_type, VersionType::MemoryConsolidation);
    let other = MemoryBuilder::new_with_content("x").unwrap().tags(vec!["note"]).build();
    assert!(parse_memory_version(&other).is_none());
}

fn version(content: &str, version_type: VersionType) -> MemoryVersion {
    MemoryVersion {
        version_id: "v".to_string(),
        memory_id: "m".to_string(),
        content: content.to_string(),
        version_type,
        change_reason: String::new(),
        created_at: at(0),
        metadata: VersionMetadata::default(),
    }
}

#[test]
fn changes_are_classified_and_described() {
    let a = version("short", VersionType::WisdomGain);
    let b = version(&"y".repeat(60), VersionType::SkillDevelopment);
    let p = version("p", VersionType::PersonalityEvolution);
    assert_eq!(classify_change_type(&a, &b), ChangeType::SkillGrowth);
    assert_eq!(classify_change_type(&b, &p), ChangeType::PersonalityShift);
    assert_eq!(classify_change_type(&a, &a), ChangeType::ContentUpdate);
    assert_eq!(describe_change(&a, &b), format!("Memory evolved from 'short' to '{}'", "y".repeat(50)));
}

#[test]
fn context_names_the_tagged_characters() {
    let memory = MemoryBuilder::new_with_content("x").unwrap().tags(vec!["char_alice", "place", "char_bob"]).build();
    let context = extract_context(&memory);
    assert_eq!(context.related_characters, vec!["alice".to_string(), "bob".to_string()]);
    assert_eq!(context.situation, "unknown");
    assert_eq!(context.emotional_state, "neutral");
}

use locai::memory::search_extensions::UniversalSearchOptions;
use locai::memory::versioning::{
    analyze_evolution, collect_memory_versions, compare_versions, retain_in_time_range, snapshot_of,
    versions_beyond_retention, RetentionPolicy,
};

fn f32_bits(x: f32) -> F32Bits {
    F32Bits { bits: x.to_bits() }
}

#[test]
fn versions_are_compared_by_content_similarity() {
    assert_eq!(compare_versions(f32_bits(0.2)), "Major content change");
    assert_eq!(compare_versions(f32_bits(0.5)), "Moderate refinement");
    assert_eq!(compare_versions(f32_bits(0.79)), "Moderate refinement");
    assert_eq!(compare_versions(f32_bits(0.8)), "Minor adjustment");
    assert_eq!(compare_versions(f32_bits(1.0)), "Minor adjustment");
    assert_eq!(compare_versions(f32_bits(f32::NAN)), "Minor adjustment");
}

#[test]
fn evolution_is_summarised() {
    assert_eq!(analyze_evolution(1, &[]), "No significant evolution detected");
    assert_eq!(analyze_evolution(0, &[]), "No significant evolution detected");
    assert_eq!(
        analyze_evolution(3, &[f32_bits(0.1), f32_bits(0.9)]),
        "Gradual memory refinement over time"
    );
}

fn stored_version(id: &str, secs: i64) -> locai::models::memory::Memory {
    let mut m = version_memory_builder("mem-1", id, VersionType::SkillDevelopment).unwrap().build();
    m.id = id.to_string();
    m.created_at = at(secs);
    m
}

#[test]
fn versions_are_collected_oldest_first() {
    let plain = MemoryBuilder::new_with_content("not a version").unwrap().build();
    let memories = vec![stored_version("c", 30), plain, stored_version("a", 10), stored_version("b", 30), stored_version("z", 20)];
    let versions = collect_memory_versions(&memories);
    let ids: Vec<&str> = versions.iter().map(|v| v.version_id.as_str()).collect();
    assert_eq!(ids, vec!["a", "z", "c", "b"]);
    assert!(versions.iter().all(|v| v.memory_id == "mem-1" && v.version_type == VersionType::SkillDevelopment));
}

#[test]
fn retention_lets_the_oldest_surplus_go() {
    let memories = vec![stored_version("a", 1), stored_version("b", 2), stored_version("c", 3)];
    let versions = collect_memory_versions(&memories);
    let policy = RetentionPolicy { max_versions: 1, retention_days: 365, keep_significant_versions: true };
    assert_eq!(versions_beyond_retention(&versions, &policy), vec!["a".to_string(), "b".to_string()]);
    assert!(versions_beyond_retention(&versions, &RetentionPolicy::default()).is_empty());
}

#[test]
fn snapshots_keep_content_and_tags() {
    let memory = MemoryBuilder::new_with_content("the tower fell").unwrap().tags(vec!["war", "tower"]).build();
    let snap = snapshot_of(&memory, "snap-1");
    assert_eq!(snap.memory_id, memory.id);
    assert_eq!(snap.snapshot_id, "snap-1");
    assert_eq!(snap.content, "the tower fell");
    assert_eq!(snap.metadata, vec!["war".to_string(), "tower".to_string()]);
}

#[test]
fn memories_are_kept_within_the_time_range() {
    let memories = vec![stored_version("a", 5), stored_version("b", 15), stored_version("c", 25)];
    let kept = retain_in_time_range(memories, Some(TimeRange::new(at(10), at(25))));
    let ids: Vec<&str> = kept.iter().map(|m| m.id.as_str()).collect();
    assert_eq!(ids, vec!["b", "c"]);
    let all = retain_in_time_range(vec![stored_version("a", 5)], None);
    assert_eq!(all.len(), 1);
}

#[test]
fn universal_search_defaults() {
    let o = UniversalSearchOptions::default();
    assert!(o.include_memories && o.include_entities && !o.include_graphs);
    assert_eq!(o.graph_depth, 1);
    assert!(o.memory_type_filter.is_none() && o.entity_type_filter.is_none() && o.similarity_threshold.is_none());
    assert!(o.expand_with_relations);
}

use locai::memory::versioning::identify_key_changes;

#[test]
fn key_changes_are_the_pairs_that_changed_enough() {
    let memories = vec![stored_version("a", 1), stored_version("b", 2), stored_version("c", 3), stored_version("d", 4)];
    let versions = collect_memory_versions(&memories);
    let changes = identify_key_changes(&versions, &[f32_bits(0.5), f32_bits(0.3), f32_bits(0.31)]).unwrap();
    assert_eq!(changes.len(), 2);
    assert_eq!(changes[0].from_version, "a");
    assert_eq!(changes[0].to_version, "b");
    assert_eq!(changes[0].magnitude, f32_bits(0.5));
    assert_eq!(changes[0].change_type, ChangeType::SkillGrowth);
    assert_eq!(changes[0].timestamp, at(2));
    assert_eq!(changes[0].description, "Memory evolved from 'Version: a' to 'Version: b'");
    assert_eq!(changes[1].from_version, "c");
    assert_eq!(changes[1].to_version, "d");
    assert_ne!(changes[0].change_id, changes[1].change_id);
    assert!(identify_key_changes(&[], &[]).unwrap().is_empty());
}

use locai::memory::search_extensions::match_entity;

#[test]
fn entities_match_by_name_description_type_and_property() {
    let props = JsonValue::Object(vec![
        ("name".to_string(), JsonValue::String("Dragon Queen".to_string())),
        ("desc".to_string(), JsonValue::String("Rules the dragons".to_string())),
        ("lair".to_string(), JsonValue::String("Dragon mountain".to_string())),
        ("home".to_string(), JsonValue::String("dragon keep".to_string())),
    ]);
    let m = match_entity("e1", "dragonkind", &props, "DRAGON");
    assert!(m.name && m.description && m.entity_type);
    assert_eq!(m.property, Some("lair".to_string()));
    assert_eq!(m.match_reason, "name match, description match, type match, property lair match");
    let none = match_entity("e1", "person", &props, "wizard");
    assert!(!none.name && !none.description && !none.entity_type && none.property.is_none());
    assert_eq!(none.match_reason, "");
    let by_id = match_entity("wizard-7", "person", &JsonValue::Null, "wizard");
    assert!(by_id.name);
    assert_eq!(by_id.match_reason, "name match");
    let odd_name = JsonValue::Object(vec![
        ("name".to_string(), JsonValue::Bool(true)),
        ("text".to_string(), JsonValue::String("wizard".to_string())),
    ]);
    assert!(match_entity("x", "y", &odd_name, "x").name);
    assert!(!match_entity("x", "y", &odd_name, "wizard").name);
}

#[test]
fn the_clock_and_fresh_identifiers() {
    let t = locai::time::now();
    assert!(t.secs > 1_600_000_000 && t.nanos < 1_000_000_000);
    let a = locai::time::new_uuid().unwrap();
    let b = locai::time::new_uuid().unwrap();
    assert_ne!(a, b);
    assert_eq!(a.len(), 36);
    assert_eq!(&a[14..15], "4");
    assert!(uuid::Uuid::parse_str(&a).is_ok());
}

#[test]
fn lowercasing_maps_ascii_letters() {
    assert_eq!(locai::text::to_lowercase("FACT: Ab-9"), "fact: ab-9");
    assert_eq!(locai::models::memory::MemoryType::from_str("FACT"), locai::models::memory::MemoryType::Fact);
}

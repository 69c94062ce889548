use locai::messaging::filters::{build_namespaced_patterns, extract_topic_base, TopicMatcher};
use locai::messaging::stream::utils::matches_pattern;
use locai::memory::utils::extract_namespace_from_topic;

#[test]
fn test_topic_matcher_exact() {
    let matcher = TopicMatcher::new(vec!["character.action".to_string(), "gm.narration".to_string()]);

    assert!(matcher.matches("character.action"));
    assert!(matcher.matches("gm.narration"));
    assert!(!matcher.matches("other.topic"));
}

#[test]
fn test_topic_matcher_wildcard() {
    let matcher = TopicMatcher::new(vec!["character.*".to_string()]);

    assert!(matcher.matches("character.action"));
    assert!(matcher.matches("character.dialogue"));
    assert!(matcher.matches("character.status"));
    assert!(!matcher.matches("gm.narration"));
    assert!(!matcher.matches("world.event"));
}

#[test]
fn test_topic_matcher_complex_patterns() {
    let matcher = TopicMatcher::new(vec![
        "*.action".to_string(),
        "character.dialogue.*".to_string(),
        "exact.match".to_string(),
    ]);

    assert!(matcher.matches("character.action"));
    assert!(matcher.matches("npc.action"));

    assert!(matcher.matches("character.dialogue.say"));
    assert!(matcher.matches("character.dialogue.whisper"));

    assert!(matcher.matches("exact.match"));

    assert!(!matcher.matches("character.status"));
    assert!(!matcher.matches("gm.narration"));
}

#[test]
fn test_topic_matcher_operations() {
    let mut matcher = TopicMatcher::new(vec!["test.*".to_string()]);

    assert_eq!(matcher.patterns().len(), 1);
    assert!(!matcher.is_empty());

    matcher.add_pattern("new.pattern");
    assert_eq!(matcher.patterns().len(), 2);

    assert!(matcher.remove_pattern("test.*"));
    assert_eq!(matcher.patterns().len(), 1);

    matcher.clear();
    assert!(matcher.is_empty());
}

#[test]
fn filters_test_extract_topic_base() {
    assert_eq!(extract_topic_base("app:sender.character.action"), "character.action");
    assert_eq!(extract_topic_base("app:sender.gm.narration"), "gm.narration");
    assert_eq!(extract_topic_base("character.action"), "character.action");
    assert_eq!(extract_topic_base("app:sender"), "sender");
}

#[test]
fn test_build_namespaced_patterns() {
    let patterns = vec!["character.*".to_string(), "gm.narration".to_string()];
    let namespaced = build_namespaced_patterns("app:sender", &patterns);

    assert_eq!(namespaced, vec!["app:sender.character.*", "app:sender.gm.narration"]);
}

#[test]
fn test_topic_matcher_from_conversions() {
    let matcher1 = TopicMatcher::from(vec!["test.*".to_string()]);
    assert!(matcher1.matches("test.topic"));

    let matcher2 = TopicMatcher::from(vec!["test.*", "other.*"]);
    assert!(matcher2.matches("test.topic"));
    assert!(matcher2.matches("other.topic"));
}

#[test]
fn test_pattern_matching() {
    assert!(matches_pattern("test.*", "test.topic"));
    assert!(matches_pattern("test.*", "test.another.topic"));
    assert!(!matches_pattern("test.*", "other.topic"));
    assert!(matches_pattern("exact", "exact"));
    assert!(!matches_pattern("exact", "other"));

    assert!(matches_pattern("*.action", "character.action"));
    assert!(!matches_pattern("*.action", "character.status"));
}

#[test]
fn embedded_test_extract_topic_base() {
    assert_eq!(extract_topic_base("app:sender.character.action"), "character.action");
    assert_eq!(extract_topic_base("character.action"), "character.action");
}

#[test]
fn test_extract_namespace_from_topic() {
    assert_eq!(extract_namespace_from_topic("app:sender.character.action"), "app:sender");
    assert_eq!(extract_namespace_from_topic("test.topic"), "test");
    assert_eq!(extract_namespace_from_topic("simple"), "simple");
}

use locai::messaging::addressing::{app_namespace, cross_app_subscription_filter, topic_subscription_filter};

#[test]
fn applications_address_their_namespace() {
    assert_eq!(app_namespace("dnd"), "app:dnd");
    let f = topic_subscription_filter("app:dnd", "character.*");
    assert_eq!(f.topic_patterns, Some(vec!["app:dnd.character.*".to_string()]));
    assert!(f.source_app.is_none() && f.topics.is_none() && !f.include_expired);
    let g = cross_app_subscription_filter("dice", "roll.*");
    assert_eq!(g.topic_patterns, Some(vec!["app:dice.roll.*".to_string()]));
    assert_eq!(g.source_app, Some("dice".to_string()));
}

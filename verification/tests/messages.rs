use locai::memory::utils::{extract_message_properties, extract_message_tags};
use locai::messaging::embedded::matches_memory_filter;
use locai::messaging::filters::convert_message_filter_to_memory_filter;
use locai::messaging::stream::utils::{matches_filter, matches_filter_at};
use locai::messaging::types::{Message, MessageBuilder, MessageFilter, MessageId};
use locai::storage::filters::MemoryFilter;
use locai::time::{now, OrderedFloat, Timestamp};

fn importance(f: f64) -> OrderedFloat {
    OrderedFloat::from_f64_bits(f.to_bits())
}

fn hours_from_now(h: i64) -> Timestamp {
    let t = now();
    Timestamp { secs: t.secs + h * 3600, nanos: t.nanos }
}

fn property<'a>(props: &'a [(String, locai::json::JsonValue)], key: &str) -> &'a locai::json::JsonValue {
    &props.iter().find(|(k, _)| k == key).unwrap().1
}

#[test]
fn test_message_creation() {
    let content = "{\"text\":\"Hello, world!\"}".to_string();
    let message = Message::new("test.topic".to_string(), "sender1".to_string(), content.clone()).unwrap();

    assert_eq!(message.topic, "test.topic");
    assert_eq!(message.sender, "sender1");
    assert_eq!(message.content, content);
    assert!(message.recipients.is_empty());
    assert!(!message.is_expired());
}

#[test]
fn test_message_builder() {
    let content = "{\"text\":\"Hello, world!\"}";
    let message = MessageBuilder::new("test.topic", "sender1", content).unwrap()
        .recipient("recipient1")
        .header("priority", "high")
        .tag("test")
        .importance(importance(0.8))
        .build();

    assert_eq!(message.topic, "test.topic");
    assert_eq!(message.sender, "sender1");
    assert_eq!(message.recipients, vec!["recipient1"]);
    assert_eq!(message.get_header("priority"), Some(&"high".to_string()));
    assert!(message.has_tag("test"));
    assert_eq!(message.importance, Some(importance(0.8)));
}

#[test]
fn test_message_filter() {
    let filter = MessageFilter::new()
        .topics(vec!["topic1", "topic2"])
        .senders(vec!["sender1"])
        .importance_range(importance(0.5), importance(1.0))
        .add_header("priority", "high");

    assert_eq!(filter.topics.as_ref().unwrap().len(), 2);
    assert_eq!(filter.senders.as_ref().unwrap()[0], "sender1");
    assert_eq!(filter.importance_range, Some((importance(0.5), importance(1.0))));
    let headers = filter.headers.as_ref().unwrap();
    assert_eq!(headers.iter().find(|(k, _)| k == "priority").map(|(_, v)| v), Some(&"high".to_string()));
}

#[test]
fn test_message_expiration() {
    let past_time = hours_from_now(-1);
    let future_time = hours_from_now(1);

    let expired_message = Message::new("test".to_string(), "sender".to_string(), "{}".to_string()).unwrap().expires_at(past_time);
    assert!(expired_message.is_expired());

    let valid_message = Message::new("test".to_string(), "sender".to_string(), "{}".to_string()).unwrap().expires_at(future_time);
    assert!(!valid_message.is_expired());
}

#[test]
fn test_matches_filter() {
    let message = Message::new("test.topic".to_string(), "sender1".to_string(), "{}".to_string()).unwrap()
        .add_tag("important")
        .importance(importance(0.8));

    let filter = MessageFilter::new()
        .topics(vec!["test.topic"])
        .tags(vec!["important"])
        .importance_range(importance(0.5), importance(1.0));

    assert!(matches_filter(&message, &filter));

    let filter2 = MessageFilter::new().topics(vec!["other.topic"]);

    assert!(!matches_filter(&message, &filter2));
}

#[test]
fn test_build_message_tags() {
    let message = Message::new("app:sender.character.action".to_string(), "test_sender".to_string(), "{}".to_string()).unwrap()
        .add_tag("important")
        .add_recipient("recipient1");

    let tags = extract_message_tags(&message);

    assert!(tags.contains(&"message".to_string()));
    assert!(tags.contains(&"sender:test_sender".to_string()));
    assert!(tags.contains(&"topic:character.action".to_string()));
    assert!(tags.contains(&"important".to_string()));
    assert!(tags.contains(&"recipient:recipient1".to_string()));
    assert_eq!(
        tags,
        vec!["message", "sender:test_sender", "topic:character.action", "important", "recipient:recipient1"]
    );
}

#[test]
fn test_build_message_properties() {
    let message = Message::new("test.topic".to_string(), "sender".to_string(), "{}".to_string()).unwrap()
        .add_header("priority", "high");

    let properties = extract_message_properties(&message);

    assert_eq!(property(&properties, "topic").as_str(), Some("test.topic"));
    assert_eq!(property(&properties, "sender").as_str(), Some("sender"));
    assert_eq!(property(&properties, "namespace").as_str(), Some("test"));
    match property(&properties, "headers") {
        locai::json::JsonValue::Object(entries) => assert!(!entries.is_empty()),
        _ => panic!("headers are an object"),
    }
    let keys: Vec<&str> = properties.iter().map(|(k, _)| k.as_str()).collect();
    assert_eq!(keys, vec!["headers", "message_id", "namespace", "recipients", "sender", "tags", "timestamp", "topic"]);
    let stamp = property(&properties, "timestamp").as_str().unwrap();
    assert!(stamp.ends_with('Z'));
    assert_eq!(property(&properties, "message_id").as_str(), Some(message.id.as_str()));
}

#[test]
fn test_matches_memory_filter() {
    let message = Message::new("test.topic".to_string(), "sender1".to_string(), "{\"content\":\"test\"}".to_string()).unwrap()
        .add_tag("important");

    let mut filter = MemoryFilter::default();
    filter.memory_type = Some("msg:test.topic".to_string());
    filter.source = Some("sender1".to_string());
    filter.tags = Some(vec!["important".to_string()]);

    assert!(matches_memory_filter(&message, &filter));

    filter.source = Some("other_sender".to_string());
    assert!(!matches_memory_filter(&message, &filter));
}

#[test]
fn memory_filter_content_and_time() {
    let message = Message::new("app:x.chat".to_string(), "s".to_string(), "{\"text\":\"Hello World\"}".to_string()).unwrap();
    let mut filter = MemoryFilter::default();
    filter.content = Some("WORLD".to_string());
    assert!(matches_memory_filter(&message, &filter));
    filter.content = Some("mars".to_string());
    assert!(!matches_memory_filter(&message, &filter));
    let mut filter = MemoryFilter::default();
    filter.created_after = Some(hours_from_now(1));
    assert!(!matches_memory_filter(&message, &filter));
    filter.created_after = None;
    filter.created_before = Some(hours_from_now(1));
    assert!(matches_memory_filter(&message, &filter));
    filter.memory_type = Some("msg:chat".to_string());
    assert!(matches_memory_filter(&message, &filter));
}

#[test]
fn namespaced_topic_filters_the_stored_memory_type() {
    let filter = MessageFilter::new().topics(vec!["app:sender.character.action"]);
    let memory_filter = convert_message_filter_to_memory_filter(&filter).unwrap();
    assert_eq!(memory_filter.memory_type, Some("msg:character.action".to_string()));
    let bare = MessageFilter::new().topics(vec!["app:sender"]);
    assert_eq!(convert_message_filter_to_memory_filter(&bare).unwrap().memory_type, Some("msg:sender".to_string()));
    let plain = MessageFilter::new().topics(vec!["plain.topic"]);
    assert_eq!(convert_message_filter_to_memory_filter(&plain).unwrap().memory_type, Some("msg:plain.topic".to_string()));
}

#[test]
fn message_filter_conversion() {
    let filter = MessageFilter::new()
        .topics(vec!["app:alice.chat.room", "plain"])
        .topic_patterns(vec!["chat.*", "exact"])
        .senders(vec!["alice", "bob"])
        .content_query("hi");
    let memory_filter = convert_message_filter_to_memory_filter(&filter).unwrap();
    assert_eq!(memory_filter.memory_type, Some("msg:chat.room".to_string()));
    assert_eq!(memory_filter.tags, Some(vec!["chat.".to_string(), "exact".to_string()]));
    assert_eq!(memory_filter.source, Some("alice".to_string()));
    assert_eq!(memory_filter.content, Some("hi".to_string()));
}

#[test]
fn message_filter_at_fixed_time() {
    let t = Timestamp { secs: 1000, nanos: 0 };
    let message = Message::new("a.b".to_string(), "s".to_string(), "{}".to_string()).unwrap()
        .expires_at(Timestamp { secs: 500, nanos: 0 })
        .add_recipient("r1")
        .add_header("k", "v");
    let filter = MessageFilter::new();
    assert!(!matches_filter_at(&message, &filter, t));
    let filter = MessageFilter::new().include_expired(true);
    assert!(matches_filter_at(&message, &filter, t));
    let filter = MessageFilter::new().include_expired(true).recipients(vec!["r2"]);
    assert!(!matches_filter_at(&message, &filter, t));
    let filter = MessageFilter::new().include_expired(true).add_header("k", "v").topic_patterns(vec!["a.*"]);
    assert!(matches_filter_at(&message, &filter, t));
    let filter = MessageFilter::new().include_expired(true).add_header("k", "w");
    assert!(!matches_filter_at(&message, &filter, t));
    let filter = MessageFilter::new().include_expired(true).importance_range(importance(0.0), importance(1.0));
    assert!(!matches_filter_at(&message, &filter, t));
}

#[test]
fn message_ids_are_uuids() {
    let a = MessageId::new().unwrap();
    let b = MessageId::new().unwrap();
    assert_eq!(a.as_str().len(), 36);
    assert_ne!(a.as_str(), b.as_str());
    assert_eq!(MessageId::from_string("x".to_string()).to_string(), "x");
}

//! Messages kept as memories: which memory-level filters a message passes.

use vstd::prelude::*;
use crate::messaging::types::Message;
use crate::messaging::filters::{extract_topic_base, topic_base, string_views};
use crate::memory::utils::{extract_message_tags, message_tags, has_all_strings};
use crate::storage::filters::MemoryFilter;
use crate::text::{str_eq, str_contains, contains_seq, to_lowercase, lowercase_chars};
use crate::time::ts_before;

verus! {

/// The memory type a message is stored under: `msg:` and its topic base.
pub open spec fn message_memory_type(m: Message) -> Seq<char> {
    "msg:"@ + topic_base(m.topic@)
}

/// Whether a message passes the memory-level filter: the memory type it is
/// stored under, its sender as source, its time within the bounds, its content
/// text containing the query (ignoring case), and all the tags among those it is
/// stored with.
pub open spec fn message_memory_filter_admits(m: Message, f: MemoryFilter) -> bool {
    &&& (f.memory_type matches Some(t) ==> t@ == message_memory_type(m))
    &&& (f.source matches Some(s) ==> s@ == m.sender@)
    &&& (f.created_after matches Some(a) ==> !ts_before(m.timestamp, a))
    &&& (f.created_before matches Some(b) ==> !ts_before(b, m.timestamp))
    &&& (f.content matches Some(q) ==> contains_seq(lowercase_chars(m.content@), lowercase_chars(q@)))
    &&& (f.tags matches Some(ts) ==> forall|i: int|
        0 <= i < ts@.len() ==> message_tags(m).contains(#[trigger] ts@[i]@))
}

/// Check if a message matches memory-level filters.
pub fn matches_memory_filter(message: &Message, filter: &MemoryFilter) -> (r: bool)
    ensures
        r == message_memory_filter_admits(*message, *filter),
{
    if let Some(memory_type) = &filter.memory_type {
        let base = extract_topic_base(message.topic.as_str());
        let expected_type = String::from_str("msg:").concat(base.as_str());
        if !str_eq(memory_type.as_str(), expected_type.as_str()) {
            return false;
        }
    }
    if let Some(source) = &filter.source {
        if !str_eq(source.as_str(), message.sender.as_str()) {
            return false;
        }
    }
    if let Some(created_after) = &filter.created_after {
        if message.timestamp.is_before(created_after) {
            return false;
        }
    }
    if let Some(created_before) = &filter.created_before {
        if created_before.is_before(&message.timestamp) {
            return false;
        }
    }
    if let Some(content_query) = &filter.content {
        let content_lower = to_lowercase(message.content.as_str());
        let query_lower = to_lowercase(content_query.as_str());
        if !str_contains(content_lower.as_str(), query_lower.as_str()) {
            return false;
        }
    }
    if let Some(filter_tags) = &filter.tags {
        let memory_tags = extract_message_tags(message);
        if !has_all_strings(&memory_tags, filter_tags) {
            return false;
        }
    }
    true
}

} // verus!

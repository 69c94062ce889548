//! Memory utility functions: parsing, and the tags under which a message is
//! stored as a memory.

use vstd::prelude::*;
use crate::text::{chars_of, subvec, vec_find_char, string_from_chars, first_index_of, str_eq, str_contains,
    contains_seq, to_lowercase, lowercase_chars, join_with};
use crate::models::memory::{Memory, MemoryView, MemoryType, MemoryTypeView, MemoryPriority, memory_type_text,
    memory_type_parsed, priority_parsed, embedding_view};
use crate::json::{JsonValue, JsonView, NumberRepr, field, obj_insert, insert_entry, entries_view, keys_sorted,
    lemma_obj_insert_sorted, lemma_insert_sorted_last};
use crate::models::memory::{MemoryBuilder, properties_from};
use crate::relationships::validation::string_items;
use crate::time::{Timestamp, F32Bits, now, parse_rfc3339, rfc3339_instant, format_rfc3339, rfc3339_text};
use crate::storage::filters::MemoryFilter;
use crate::time::ts_before;
use crate::messaging::types::Message;
use crate::messaging::filters::{extract_topic_base, topic_base, topic_namespace, string_views};

pub use crate::models::memory::{parse_memory_type, parse_memory_priority};

verus! {

/// Extract namespace from a topic: everything before its first dot, or the whole topic.
pub fn extract_namespace_from_topic(topic: &str) -> (r: String)
    ensures
        r@ == topic_namespace(topic@),
{
    let t = chars_of(topic);
    match vec_find_char(&t, '.') {
        Some(i) => {
            let head = subvec(&t, 0, i);
            assert(head@ == t@.take(i as int));
            string_from_chars(head.as_slice())
        },
        None => String::from_str(topic),
    }
}

/// The tags under which a message is stored as a memory: `message`,
/// `sender:<sender>`, `topic:<topic base>`, the message's own tags, and
/// `recipient:<r>` for each recipient, in that order.
pub open spec fn message_tags(m: Message) -> Seq<Seq<char>> {
    seq!["message"@, "sender:"@ + m.sender@, "topic:"@ + topic_base(m.topic@)] + string_views(m.tags@)
        + string_views(m.recipients@).map_values(|r: Seq<char>| "recipient:"@ + r)
}

/// Extract tags from a message for memory storage.
pub fn extract_message_tags(message: &Message) -> (tags: Vec<String>)
    ensures
        string_views(tags@) == message_tags(*message),
{
    let mut tags: Vec<String> = Vec::new();
    tags.push(String::from_str("message"));
    tags.push(String::from_str("sender:").concat(message.sender.as_str()));
    let base = extract_topic_base(message.topic.as_str());
    tags.push(String::from_str("topic:").concat(base.as_str()));
    let ghost head = seq!["message"@, "sender:"@ + message.sender@, "topic:"@ + topic_base(message.topic@)];
    assert(string_views(tags@) =~= head);
    let mut i: usize = 0;
    while i < message.tags.len()
        invariant
            i <= message.tags.len(),
            string_views(tags@) == head + string_views(message.tags@).take(i as int),
        decreases message.tags.len() - i,
    {
        let ghost prev = tags@;
        tags.push(message.tags[i].clone());
        assert(string_views(tags@) =~= string_views(prev).push(message.tags@[i as int]@));
        assert(string_views(message.tags@).take(i + 1) =~= string_views(message.tags@).take(i as int).push(
            message.tags@[i as int]@,
        ));
        assert(string_views(tags@) =~= head + string_views(message.tags@).take(i + 1));
        i += 1;
    }
    assert(string_views(message.tags@).take(message.tags.len() as int) =~= string_views(message.tags@));
    let ghost mid = head + string_views(message.tags@);
    let ghost rec = string_views(message.recipients@).map_values(|r: Seq<char>| "recipient:"@ + r);
    let mut j: usize = 0;
    while j < message.recipients.len()
        invariant
            j <= message.recipients.len(),
            rec == string_views(message.recipients@).map_values(|r: Seq<char>| "recipient:"@ + r),
            string_views(tags@) == mid + rec.take(j as int),
        decreases message.recipients.len() - j,
    {
        let ghost prev = tags@;
        tags.push(String::from_str("recipient:").concat(message.recipients[j].as_str()));
        assert(string_views(tags@) =~= string_views(prev).push("recipient:"@ + message.recipients@[j as int]@));
        assert(rec.take(j + 1) =~= rec.take(j as int).push(rec[j as int]));
        assert(string_views(tags@) =~= mid + rec.take(j + 1));
        j += 1;
    }
    assert(rec.take(message.recipients.len() as int) =~= rec);
    tags
}

/// Whether a memory meets every criterion a filter sets: its type's text, its
/// content (containing the query, ignoring case), its source, all the tags, and
/// its creation time within the bounds.
pub open spec fn memory_filter_admits(m: MemoryView, f: MemoryFilter) -> bool {
    &&& (f.memory_type matches Some(t) ==> t@ == memory_type_text(m.memory_type))
    &&& (f.content matches Some(q) ==> contains_seq(lowercase_chars(m.content), lowercase_chars(q@)))
    &&& (f.source matches Some(src) ==> m.source == src@)
    &&& (f.tags matches Some(ts) ==> forall|i: int| 0 <= i < ts@.len() ==> m.tags.contains(#[trigger] ts@[i]@))
    &&& (f.created_after matches Some(a) ==> !ts_before(m.created_at, a))
    &&& (f.created_before matches Some(b) ==> !ts_before(b, m.created_at))
}

/// Whether some string of `v` equals `s`.
fn has_string(v: &Vec<String>, s: &str) -> (r: bool)
    ensures
        r == string_views(v@).contains(s@),
{
    let mut i: usize = 0;
    while i < v.len()
        invariant
            i <= v.len(),
            forall|j: int| 0 <= j < i ==> v@[j]@ != s@,
        decreases v.len() - i,
    {
        if str_eq(v[i].as_str(), s) {
            assert(string_views(v@)[i as int] == s@);
            return true;
        }
        i += 1;
    }
    proof {
        if string_views(v@).contains(s@) {
            let j = choose|j: int| 0 <= j < string_views(v@).len() && string_views(v@)[j] == s@;
            assert(v@[j]@ == s@);
        }
    }
    false
}

/// Whether every string of `wanted` is among the strings of `v`.
pub(crate) fn has_all_strings(v: &Vec<String>, wanted: &Vec<String>) -> (r: bool)
    ensures
        r == forall|i: int| 0 <= i < wanted@.len() ==> string_views(v@).contains(#[trigger] wanted@[i]@),
{
    let mut i: usize = 0;
    while i < wanted.len()
        invariant
            i <= wanted.len(),
            forall|j: int| 0 <= j < i ==> string_views(v@).contains(#[trigger] wanted@[j]@),
        decreases wanted.len() - i,
    {
        if !has_string(v, wanted[i].as_str()) {
            assert(!string_views(v@).contains(wanted@[i as int]@));
            return false;
        }
        i += 1;
    }
    true
}

/// Check if a memory matches the filter criteria.
pub fn matches_memory_filter_detailed(memory: &Memory, filter: &MemoryFilter) -> (r: bool)
    ensures
        r == memory_filter_admits(memory@, *filter),
{
    if let Some(filter_type) = &filter.memory_type {
        let memory_type_str = memory.memory_type.to_string();
        if !str_eq(filter_type.as_str(), memory_type_str.as_str()) {
            return false;
        }
    }
    if let Some(content_query) = &filter.content {
        let content_lower = to_lowercase(memory.content.as_str());
        let query_lower = to_lowercase(content_query.as_str());
        if !str_contains(content_lower.as_str(), query_lower.as_str()) {
            return false;
        }
    }
    if let Some(filter_source) = &filter.source {
        if !str_eq(memory.source.as_str(), filter_source.as_str()) {
            return false;
        }
    }
    if let Some(filter_tags) = &filter.tags {
        if !has_all_strings(&memory.tags, filter_tags) {
            return false;
        }
    }
    if let Some(created_after) = &filter.created_after {
        if memory.created_at.is_before(created_after) {
            return false;
        }
    }
    if let Some(created_before) = &filter.created_before {
        if created_before.is_before(&memory.created_at) {
            return false;
        }
    }
    true
}

/// The reasons a memory matches a query, in order: its content, one of its
/// tags, or its source contains the query, ignoring case.
pub open spec fn match_reasons(m: MemoryView, query: Seq<char>) -> Seq<Seq<char>> {
    let q = lowercase_chars(query);
    (if contains_seq(lowercase_chars(m.content), q) { seq!["content match"@] } else { Seq::empty() })
        + (if exists|i: int| 0 <= i < m.tags.len() && contains_seq(lowercase_chars(#[trigger] m.tags[i]), q) {
        seq!["tag match"@]
    } else {
        Seq::empty()
    }) + (if contains_seq(lowercase_chars(m.source), q) { seq!["source match"@] } else { Seq::empty() })
}

/// The text explaining why a memory matched a query: the reasons joined with
/// `, `, or `semantic similarity` when there is none.
pub open spec fn match_reason_text(m: MemoryView, query: Seq<char>) -> Seq<char> {
    let reasons = match_reasons(m, query);
    if reasons.len() == 0 {
        "semantic similarity"@
    } else {
        join_with(reasons, ", "@)
    }
}

/// Determine why a memory matched a search query.
pub fn determine_memory_match_reason(memory: &Memory, query: &str) -> (r: String)
    ensures
        r@ == match_reason_text(memory@, query@),
{
    let query_lower = to_lowercase(query);
    let content_lower = to_lowercase(memory.content.as_str());
    let mut reasons: Vec<&str> = Vec::new();
    let ghost q = lowercase_chars(query@);
    let ghost part_a: Seq<Seq<char>> = if contains_seq(lowercase_chars(memory@.content), q) {
        seq!["content match"@]
    } else {
        Seq::empty()
    };
    let ghost part_b: Seq<Seq<char>> = if exists|i: int|
        0 <= i < memory@.tags.len() && contains_seq(lowercase_chars(#[trigger] memory@.tags[i]), q) {
        seq!["tag match"@]
    } else {
        Seq::empty()
    };
    let ghost part_c: Seq<Seq<char>> = if contains_seq(lowercase_chars(memory@.source), q) {
        seq!["source match"@]
    } else {
        Seq::empty()
    };
    if str_contains(content_lower.as_str(), query_lower.as_str()) {
        reasons.push("content match");
    }
    assert(reasons@.map_values(|s: &str| s@) =~= part_a);
    let mut tag_hit = false;
    let mut i: usize = 0;
    while i < memory.tags.len()
        invariant
            i <= memory.tags.len(),
            query_lower@ == lowercase_chars(query@),
            !tag_hit ==> forall|j: int| 0 <= j < i ==> !contains_seq(lowercase_chars(#[trigger] memory@.tags[j]), query_lower@),
            tag_hit ==> exists|j: int| 0 <= j < memory@.tags.len() && contains_seq(lowercase_chars(#[trigger] memory@.tags[j]), query_lower@),
        ensures
            !tag_hit ==> forall|j: int| 0 <= j < memory@.tags.len() ==> !contains_seq(lowercase_chars(#[trigger] memory@.tags[j]), query_lower@),
            tag_hit ==> exists|j: int| 0 <= j < memory@.tags.len() && contains_seq(lowercase_chars(#[trigger] memory@.tags[j]), query_lower@),
        decreases memory.tags.len() - i,
    {
        let tag_lower = to_lowercase(memory.tags[i].as_str());
        assert(memory@.tags[i as int] == memory.tags@[i as int]@);
        if str_contains(tag_lower.as_str(), query_lower.as_str()) {
            tag_hit = true;
            assert(contains_seq(lowercase_chars(memory@.tags[i as int]), query_lower@));
            break;
        }
        i += 1;
    }
    let ghost before_b = reasons@;
    if tag_hit {
        reasons.push("tag match");
    }
    assert(reasons@.map_values(|s: &str| s@) =~= part_a + part_b) by {
        assert(before_b.map_values(|s: &str| s@) =~= part_a);
    }
    let ghost before_c = reasons@;
    let source_lower = to_lowercase(memory.source.as_str());
    if str_contains(source_lower.as_str(), query_lower.as_str()) {
        reasons.push("source match");
    }
    assert(reasons@.map_values(|s: &str| s@) =~= part_a + part_b + part_c) by {
        assert(before_c.map_values(|s: &str| s@) =~= part_a + part_b);
    }
    let ghost rv = reasons@.map_values(|s: &str| s@);
    assert(rv =~= match_reasons(memory@, query@));
    if reasons.len() == 0 {
        String::from_str("semantic similarity")
    } else {
        let mut out = String::from_str(reasons[0]);
        let mut k: usize = 1;
        assert(rv.take(1) =~= seq![rv[0]]);
        while k < reasons.len()
            invariant
                1 <= k <= reasons.len(),
                rv == reasons@.map_values(|s: &str| s@),
                out@ == join_with(rv.take(k as int), ", "@),
            decreases reasons.len() - k,
        {
            assert(rv.take(k + 1).drop_last() =~= rv.take(k as int));
            out.append(", ");
            out.append(reasons[k]);
            k += 1;
        }
        assert(rv.take(reasons.len() as int) =~= rv);
        out
    }
}

/// The string stored under `key` in `v`, if `v` is an object holding one there.
pub open spec fn str_field(v: JsonView, key: Seq<char>) -> Option<Seq<char>> {
    match field(v, key) {
        Some(JsonView::String(s)) => Some(s),
        _ => None,
    }
}

/// The instant written in RFC 3339 under `key` in `v`, if there is a valid one.
pub open spec fn instant_field(v: JsonView, key: Seq<char>) -> Option<Timestamp> {
    match str_field(v, key) {
        Some(s) => rfc3339_instant(s),
        None => None,
    }
}

/// The strings of the array stored under `key` in `v` (none if there is no
/// array there).
pub open spec fn strings_field(v: JsonView, key: Seq<char>) -> Seq<Seq<char>> {
    match field(v, key) {
        Some(JsonView::Array(items)) => string_items(items),
        _ => Seq::empty(),
    }
}

/// The numbers among `vals`, in order, each rounded to `f32`.
pub open spec fn number_singles(vals: Seq<JsonView>) -> Seq<F32Bits>
    decreases vals.len(),
{
    if vals.len() == 0 {
        Seq::empty()
    } else {
        let rest = number_singles(vals.drop_last());
        match vals.last() {
            JsonView::Number(n) => rest.push(n.single),
            _ => rest,
        }
    }
}

/// The metadata object of a stored memory record (`null` when absent).
pub open spec fn record_metadata(rec: JsonView) -> JsonView {
    match field(rec, "metadata"@) {
        Some(m) => m,
        None => JsonView::Null,
    }
}

/// The access count of a record's metadata: a non-negative integer cut to 32
/// bits, else zero.
pub open spec fn access_count_of(meta: JsonView) -> u32 {
    match field(meta, "access_count"@) {
        Some(JsonView::Number(n)) => match n.repr {
            NumberRepr::PosInt(k) => k as u32,
            _ => 0,
        },
        _ => 0,
    }
}

/// Whether `m` is the memory read from the stored record `rec`: identifier and
/// content from the record, the creation time from it where it holds a valid
/// one, and the rest from its metadata, each with its default when absent.
pub open spec fn memory_from_record(m: MemoryView, rec: JsonView) -> bool {
    let meta = record_metadata(rec);
    &&& str_field(rec, "id"@) == Some(m.id)
    &&& str_field(rec, "content"@) == Some(m.content)
    &&& (instant_field(rec, "created_at"@) matches Some(t) ==> m.created_at == t)
    &&& m.memory_type == match str_field(meta, "memory_type"@) {
        Some(s) => memory_type_parsed(s),
        None => MemoryTypeView::Episodic,
    }
    &&& m.last_accessed == instant_field(meta, "last_accessed"@)
    &&& m.access_count == access_count_of(meta)
    &&& m.priority == match str_field(meta, "priority"@) {
        Some(s) => priority_parsed(s),
        None => MemoryPriority::Normal,
    }
    &&& m.tags == strings_field(meta, "tags"@)
    &&& m.source == match str_field(meta, "source"@) {
        Some(s) => s,
        None => "unknown"@,
    }
    &&& m.expires_at == instant_field(meta, "expires_at"@)
    &&& m.properties == match field(meta, "properties"@) {
        Some(p) => p,
        None => JsonView::Object(Seq::empty()),
    }
    &&& m.related_memories == strings_field(meta, "related_memories"@)
    &&& m.embedding == match field(rec, "embedding"@) {
        Some(JsonView::Array(items)) => Some(number_singles(items)),
        _ => None,
    }
}

/// The string stored under `key` in `v`, copied.
fn get_string(v: &JsonValue, key: &str) -> (r: Option<String>)
    ensures
        match r {
            Some(s) => str_field(v@, key@) == Some(s@),
            None => str_field(v@, key@) is None,
        },
{
    match v.get(key) {
        Some(x) => match x.as_str() {
            Some(s) => Some(String::from_str(s)),
            None => None,
        },
        None => None,
    }
}

/// The valid RFC 3339 instant stored under `key` in `v`.
fn get_instant(v: &JsonValue, key: &str) -> (r: Option<Timestamp>)
    ensures
        r == instant_field(v@, key@),
{
    match v.get(key) {
        Some(x) => match x.as_str() {
            Some(s) => parse_rfc3339(s),
            None => None,
        },
        None => None,
    }
}

/// The strings of the array stored under `key` in `v`, copied.
fn get_strings(v: &JsonValue, key: &str) -> (r: Vec<String>)
    ensures
        string_views(r@) == strings_field(v@, key@),
{
    let mut out: Vec<String> = Vec::new();
    if let Some(a) = v.get(key) {
        if let JsonValue::Array(items) = a {
            let ghost iv = a@->Array_0;
            let mut i: usize = 0;
            while i < items.len()
                invariant
                    i <= items.len(),
                    *a == JsonValue::Array(*items),
                    iv == a@->Array_0,
                    iv.len() == items.len(),
                    string_views(out@) == string_items(iv.take(i as int)),
                decreases items.len() - i,
            {
                assert(iv.take(i + 1).drop_last() =~= iv.take(i as int));
                assert(iv.take(i + 1).last() == items@[i as int]@);
                let ghost before = out@;
                if let Some(s) = items[i].as_str() {
                    out.push(String::from_str(s));
                    assert(string_views(out@) =~= string_views(before).push(s@));
                }
                i += 1;
            }
            assert(iv.take(items.len() as int) =~= iv);
            return out;
        }
    }
    assert(string_views(out@) =~= Seq::<Seq<char>>::empty());
    out
}

/// The numbers of the array stored under `key` in `v`, each rounded to `f32`.
fn get_singles(v: &JsonValue, key: &str) -> (r: Option<Vec<F32Bits>>)
    ensures
        embedding_view(r) == match field(v@, key@) {
            Some(JsonView::Array(items)) => Some(number_singles(items)),
            _ => None,
        },
{
    if let Some(a) = v.get(key) {
        if let JsonValue::Array(items) = a {
            let ghost iv = a@->Array_0;
            let mut out: Vec<F32Bits> = Vec::new();
            let mut i: usize = 0;
            while i < items.len()
                invariant
                    i <= items.len(),
                    *a == JsonValue::Array(*items),
                    iv == a@->Array_0,
                    iv.len() == items.len(),
                    out@ == number_singles(iv.take(i as int)),
                decreases items.len() - i,
            {
                assert(iv.take(i + 1).drop_last() =~= iv.take(i as int));
                assert(iv.take(i + 1).last() == items@[i as int]@);
                if let JsonValue::Number(n) = &items[i] {
                    out.push(n.single);
                }
                i += 1;
            }
            assert(iv.take(items.len() as int) =~= iv);
            return Some(out);
        }
    }
    None
}

/// Convert a stored memory record (the result of a database event) to a
/// Memory. The record must hold a string `id` and `content`; a missing or
/// invalid creation time is replaced by the current time.
pub fn convert_db_event_to_memory(result: &JsonValue) -> (r: Option<Memory>)
    ensures
        r is None <==> (str_field(result@, "id"@) is None || str_field(result@, "content"@) is None),
        r matches Some(m) ==> memory_from_record(m@, result@),
{
    let id = get_string(result, "id")?;
    let content = get_string(result, "content")?;
    let created_at = match get_instant(result, "created_at") {
        Some(t) => t,
        None => now(),
    };
    let metadata = match result.get("metadata") {
        Some(m) => m.deep_copy(),
        None => JsonValue::Null,
    };
    assert(metadata@ == record_metadata(result@));
    let memory_type = match metadata.get("memory_type") {
        Some(JsonValue::String(s)) => crate::models::memory::parse_memory_type(s.as_str()),
        _ => MemoryType::Episodic,
    };
    let last_accessed = get_instant(&metadata, "last_accessed");
    let access_count: u32 = match metadata.get("access_count") {
        Some(JsonValue::Number(n)) => match n.repr {
            NumberRepr::PosInt(k) => k as u32,
            _ => 0,
        },
        _ => 0,
    };
    let priority = match metadata.get("priority") {
        Some(JsonValue::String(s)) => crate::models::memory::parse_memory_priority(s.as_str()),
        _ => MemoryPriority::Normal,
    };
    let tags = get_strings(&metadata, "tags");
    let source = match get_string(&metadata, "source") {
        Some(s) => s,
        None => String::from_str("unknown"),
    };
    let expires_at = get_instant(&metadata, "expires_at");
    let properties = match metadata.get("properties") {
        Some(p) => p.deep_copy(),
        None => JsonValue::Object(Vec::new()),
    };
    assert(properties@ == match field(metadata@, "properties"@) {
        Some(p) => p,
        None => JsonView::Object(Seq::empty()),
    }) by {
        if field(metadata@, "properties"@) is None {
            assert(properties@->Object_0 =~= Seq::<(Seq<char>, JsonView)>::empty());
        }
    }
    let related_memories = get_strings(&metadata, "related_memories");
    let embedding = get_singles(result, "embedding");
    Some(
        Memory {
            id,
            content,
            memory_type,
            created_at,
            last_accessed,
            access_count,
            priority,
            tags,
            source,
            expires_at,
            properties,
            related_memories,
            embedding,
        },
    )
}

/// The JSON value serde gives an instant: its RFC 3339 text (`null` if it
/// cannot be rendered).
pub open spec fn instant_json(t: Timestamp) -> JsonView {
    match rfc3339_text(t) {
        Some(s) => JsonView::String(s),
        None => JsonView::Null,
    }
}

/// A JSON array of strings.
pub open spec fn string_array(v: Seq<Seq<char>>) -> JsonView {
    JsonView::Array(v.map_values(|s: Seq<char>| JsonView::String(s)))
}

/// The JSON object of a message's headers: each pair set in turn.
pub open spec fn headers_object(h: Seq<(String, String)>) -> Seq<(Seq<char>, JsonView)>
    decreases h.len(),
{
    if h.len() == 0 {
        Seq::empty()
    } else {
        obj_insert(headers_object(h.drop_last()), h.last().0@, JsonView::String(h.last().1@))
    }
}

/// The properties a message is stored under as a memory: its identifier,
/// topic, namespace, sender, recipients, time, expiration (if any), headers
/// and tags, keyed by name.
pub open spec fn message_properties(m: Message) -> Seq<(Seq<char>, JsonView)> {
    let p = obj_insert(Seq::empty(), "message_id"@, JsonView::String(m.id.0@));
    let p = obj_insert(p, "topic"@, JsonView::String(m.topic@));
    let p = obj_insert(p, "namespace"@, JsonView::String(topic_namespace(m.topic@)));
    let p = obj_insert(p, "sender"@, JsonView::String(m.sender@));
    let p = obj_insert(p, "recipients"@, string_array(string_views(m.recipients@)));
    let p = obj_insert(p, "timestamp"@, instant_json(m.timestamp));
    let p = match m.expires_at {
        Some(e) => obj_insert(p, "expires_at"@, instant_json(e)),
        None => p,
    };
    let p = obj_insert(p, "headers"@, JsonView::Object(headers_object(m.headers@)));
    obj_insert(p, "tags"@, string_array(string_views(m.tags@)))
}

/// The JSON value of an instant.
fn instant_value(t: Timestamp) -> (r: JsonValue)
    ensures
        r@ == instant_json(t),
{
    match format_rfc3339(t) {
        Some(s) => JsonValue::String(s),
        None => JsonValue::Null,
    }
}

/// A JSON array of copies of the strings.
fn string_array_value(v: &Vec<String>) -> (r: JsonValue)
    ensures
        r@ == string_array(string_views(v@)),
{
    let mut items: Vec<JsonValue> = Vec::new();
    let mut i: usize = 0;
    while i < v.len()
        invariant
            i <= v.len(),
            items@.len() == i,
            forall|j: int| 0 <= j < i ==> (#[trigger] items@[j])@ == JsonView::String(v@[j]@),
        decreases v.len() - i,
    {
        items.push(JsonValue::String(v[i].clone()));
        i += 1;
    }
    let r = JsonValue::Array(items);
    assert(r@->Array_0 =~= string_array(string_views(v@))->Array_0);
    r
}

/// The JSON object of a message's headers.
fn headers_value(h: &Vec<(String, String)>) -> (r: JsonValue)
    ensures
        r@ == JsonView::Object(headers_object(h@)),
{
    let mut headers: Vec<(String, JsonValue)> = Vec::new();
    let mut i: usize = 0;
    while i < h.len()
        invariant
            i <= h.len(),
            entries_view(headers@) == headers_object(h@.take(i as int)),
        decreases h.len() - i,
    {
        assert(h@.take(i + 1).drop_last() =~= h@.take(i as int));
        insert_entry(&mut headers, h[i].0.as_str(), JsonValue::String(h[i].1.clone()));
        i += 1;
    }
    assert(h@.take(h.len() as int) =~= h@);
    let hv = JsonValue::Object(headers);
    assert(hv@->Object_0 =~= entries_view(headers@));
    hv
}

/// Extract properties from a message for memory storage.
pub fn extract_message_properties(message: &Message) -> (r: Vec<(String, JsonValue)>)
    ensures
        entries_view(r@) == message_properties(*message),
{
    let mut props: Vec<(String, JsonValue)> = Vec::new();
    assert(entries_view(props@) =~= Seq::<(Seq<char>, JsonView)>::empty());
    insert_entry(&mut props, "message_id", JsonValue::String(String::from_str(message.id.as_str())));
    insert_entry(&mut props, "topic", JsonValue::String(message.topic.clone()));
    insert_entry(&mut props, "namespace", JsonValue::String(extract_namespace_from_topic(message.topic.as_str())));
    insert_entry(&mut props, "sender", JsonValue::String(message.sender.clone()));
    insert_entry(&mut props, "recipients", string_array_value(&message.recipients));
    insert_entry(&mut props, "timestamp", instant_value(message.timestamp));
    if let Some(e) = message.expires_at {
        insert_entry(&mut props, "expires_at", instant_value(e));
    }
    let hv = headers_value(&message.headers);
    insert_entry(&mut props, "headers", hv);
    insert_entry(&mut props, "tags", string_array_value(&message.tags));
    props
}

/// The properties a message is stored under are in key order.
pub proof fn lemma_message_properties_sorted(m: Message)
    ensures
        keys_sorted(message_properties(m)),
{
    let e = Seq::<(Seq<char>, JsonView)>::empty();
    let p1 = obj_insert(e, "message_id"@, JsonView::String(m.id.0@));
    lemma_obj_insert_sorted(e, "message_id"@, JsonView::String(m.id.0@));
    let p2 = obj_insert(p1, "topic"@, JsonView::String(m.topic@));
    lemma_obj_insert_sorted(p1, "topic"@, JsonView::String(m.topic@));
    let p3 = obj_insert(p2, "namespace"@, JsonView::String(topic_namespace(m.topic@)));
    lemma_obj_insert_sorted(p2, "namespace"@, JsonView::String(topic_namespace(m.topic@)));
    let p4 = obj_insert(p3, "sender"@, JsonView::String(m.sender@));
    lemma_obj_insert_sorted(p3, "sender"@, JsonView::String(m.sender@));
    let p5 = obj_insert(p4, "recipients"@, string_array(string_views(m.recipients@)));
    lemma_obj_insert_sorted(p4, "recipients"@, string_array(string_views(m.recipients@)));
    let p6 = obj_insert(p5, "timestamp"@, instant_json(m.timestamp));
    lemma_obj_insert_sorted(p5, "timestamp"@, instant_json(m.timestamp));
    let p7 = match m.expires_at {
        Some(x) => obj_insert(p6, "expires_at"@, instant_json(x)),
        None => p6,
    };
    if let Some(x) = m.expires_at {
        lemma_obj_insert_sorted(p6, "expires_at"@, instant_json(x));
    }
    let p8 = obj_insert(p7, "headers"@, JsonView::Object(headers_object(m.headers@)));
    lemma_obj_insert_sorted(p7, "headers"@, JsonView::Object(headers_object(m.headers@)));
    lemma_obj_insert_sorted(p8, "tags"@, string_array(string_views(m.tags@)));
}

/// Setting pairs in turn whose keys are already in order, each once, gives
/// back those pairs.
pub proof fn lemma_properties_from_sorted(pairs: Seq<(&str, JsonValue)>, e: Seq<(Seq<char>, JsonView)>)
    requires
        keys_sorted(e),
        pairs.len() == e.len(),
        forall|i: int| 0 <= i < pairs.len() ==> (#[trigger] pairs[i]).0@ == e[i].0 && pairs[i].1@ == e[i].1,
    ensures
        properties_from(pairs) == e,
    decreases pairs.len(),
{
    if pairs.len() > 0 {
        let init = e.drop_last();
        assert forall|a: int, b: int| 0 <= a < b < init.len() implies crate::text::key_lt(init[a].0, init[b].0) by {
            assert(init[a] == e[a] && init[b] == e[b]);
        }
        assert forall|i: int| 0 <= i < pairs.drop_last().len() implies (#[trigger] pairs.drop_last()[i]).0@ == init[i].0
            && pairs.drop_last()[i].1@ == init[i].1 by {
            assert(pairs.drop_last()[i] == pairs[i]);
        }
        lemma_properties_from_sorted(pairs.drop_last(), init);
        lemma_insert_sorted_last(e);
        assert(pairs.last().0@ == e.last().0 && pairs.last().1@ == e.last().1);
    }
}

/// Set up a memory builder to store `message`: the memory type reads `msg:`
/// followed by the topic base, the source is the sender, and the tags and
/// properties are those a message is stored under.
pub fn configure_message_memory(builder: MemoryBuilder, message: &Message) -> (b: MemoryBuilder)
    ensures
        b@ == (MemoryView {
            memory_type: MemoryTypeView::Custom("msg:"@ + topic_base(message.topic@)),
            source: message.sender@,
            tags: message_tags(*message),
            properties: JsonView::Object(message_properties(*message)),
            ..builder@
        }),
{
    let topic = extract_topic_base(message.topic.as_str());
    let tags = extract_message_tags(message);
    let mut tag_refs: Vec<&str> = Vec::new();
    let mut i: usize = 0;
    while i < tags.len()
        invariant
            i <= tags.len(),
            tag_refs@.len() == i,
            forall|j: int| 0 <= j < i ==> (#[trigger] tag_refs@[j])@ == tags@[j]@,
        decreases tags.len() - i,
    {
        tag_refs.push(tags[i].as_str());
        i += 1;
    }
    assert(tag_refs@.map_values(|t: &str| t@) =~= string_views(tags@));
    let props = extract_message_properties(message);
    let ghost pv = entries_view(props@);
    let mut keys: Vec<String> = Vec::new();
    let mut values: Vec<JsonValue> = Vec::new();
    let mut rest = props;
    let n = rest.len();
    let mut k: usize = 0;
    while k < n
        invariant
            k <= n,
            n == pv.len(),
            rest@.len() == n - k,
            forall|j: int| 0 <= j < n - k ==> (#[trigger] rest@[j]).0@ == pv[k + j].0 && rest@[j].1@ == pv[k + j].1,
            keys@.len() == k,
            values@.len() == k,
            forall|j: int| 0 <= j < k ==> (#[trigger] keys@[j])@ == pv[j].0 && values@[j]@ == pv[j].1,
        decreases n - k,
    {
        let (key, value) = rest.remove(0);
        keys.push(key);
        values.push(value);
        k += 1;
    }
    let mut pairs: Vec<(&str, JsonValue)> = Vec::new();
    let mut vals = values;
    assert forall|j: int| 0 <= j < n implies (#[trigger] vals@[j])@ == pv[0 + j].1 by {
        assert(keys@[j]@ == pv[j].0);
    }
    let mut q: usize = 0;
    while q < n
        invariant
            q <= n,
            n == pv.len(),
            keys@.len() == n,
            vals@.len() == n - q,
            forall|j: int| 0 <= j < n ==> (#[trigger] keys@[j])@ == pv[j].0,
            forall|j: int| 0 <= j < n - q ==> (#[trigger] vals@[j])@ == pv[q + j].1,
            pairs@.len() == q,
            forall|j: int| 0 <= j < q ==> (#[trigger] pairs@[j]).0@ == pv[j].0 && pairs@[j].1@ == pv[j].1,
        decreases n - q,
    {
        let v = vals.remove(0);
        pairs.push((keys[q].as_str(), v));
        q += 1;
    }
    proof {
        lemma_message_properties_sorted(*message);
        lemma_properties_from_sorted(pairs@, pv);
    }
    builder
        .memory_type(MemoryType::Custom(String::from_str("msg:").concat(topic.as_str())))
        .source(message.sender.as_str())
        .tags(tag_refs)
        .properties(pairs)
}

/// A filter that sets no criterion admits every memory.
pub proof fn lemma_empty_filter_admits(m: MemoryView, f: MemoryFilter)
    requires
        f.memory_type is None,
        f.tags is None,
        f.source is None,
        f.created_after is None,
        f.created_before is None,
        f.content is None,
    ensures
        memory_filter_admits(m, f),
{
}

/// A latest creation time refuses every memory created after it, whatever
/// else the filter allows.
pub proof fn lemma_created_before_refuses_later(m: MemoryView, f: MemoryFilter, b: Timestamp)
    requires
        f.created_before == Some(b),
        b.secs < m.created_at.secs || (b.secs == m.created_at.secs && b.nanos < m.created_at.nanos),
    ensures
        !memory_filter_admits(m, f),
{
}

/// A filter that sets only a latest creation time admits exactly the
/// memories created at or before it.
pub proof fn lemma_created_before_admits_earlier(m: MemoryView, f: MemoryFilter, b: Timestamp)
    requires
        f.created_before == Some(b),
        f.memory_type is None,
        f.tags is None,
        f.source is None,
        f.created_after is None,
        f.content is None,
    ensures
        memory_filter_admits(m, f) <==> (m.created_at.secs < b.secs || (m.created_at.secs == b.secs
            && m.created_at.nanos <= b.nanos)),
{
}

/// A filter that sets only an earliest creation time admits exactly the
/// memories created at or after it.
pub proof fn lemma_created_after_admits_later(m: MemoryView, f: MemoryFilter, a: Timestamp)
    requires
        f.created_after == Some(a),
        f.memory_type is None,
        f.tags is None,
        f.source is None,
        f.created_before is None,
        f.content is None,
    ensures
        memory_filter_admits(m, f) <==> (a.secs < m.created_at.secs || (a.secs == m.created_at.secs
            && a.nanos <= m.created_at.nanos)),
{
}

/// A message is stored with each of its own tags, besides its sender, topic
/// and recipient tags.
pub proof fn lemma_message_tags_keep_own(m: Message, i: int)
    requires
        0 <= i < m.tags@.len(),
    ensures
        message_tags(m).contains(m.tags@[i]@),
        message_tags(m).contains("message"@),
{
    let head = seq!["message"@, "sender:"@ + m.sender@, "topic:"@ + topic_base(m.topic@)];
    let own = string_views(m.tags@);
    let rec = string_views(m.recipients@).map_values(|r: Seq<char>| "recipient:"@ + r);
    assert(message_tags(m) == head + own + rec);
    assert((head + own + rec)[3 + i] == own[i]);
    assert((head + own + rec)[0] == "message"@);
}

} // verus!

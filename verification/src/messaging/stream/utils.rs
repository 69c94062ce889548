//! Pattern and filter matching applied to each message of a stream.

use vstd::prelude::*;
use crate::text::{chars_of, chars_eq, vec_contains_char, subvec, vec_has_prefix, vec_has_suffix,
    has_prefix, has_suffix, to_lowercase, str_contains, contains_seq, lowercase_chars};
use crate::time::{Timestamp, ts_before, float_lt, now};
use crate::messaging::types::{Message, MessageFilter, header_value, expired_at, strings_contain};
use crate::messaging::filters::{string_views, any_pattern_matches};

verus! {

/// What a topic pattern matches.
///
/// A pattern that contains `*` and ends with it matches every topic that starts
/// with the pattern minus its last character; one that contains `*`, does not
/// end with it and starts with it matches every topic that ends with the pattern
/// minus its first character; any other pattern matches only the topic equal to it.
pub open spec fn pattern_matches(pattern: Seq<char>, topic: Seq<char>) -> bool {
    if pattern.contains('*') {
        if pattern.last() == '*' {
            has_prefix(topic, pattern.drop_last())
        } else if pattern[0] == '*' {
            has_suffix(topic, pattern.drop_first())
        } else {
            pattern == topic
        }
    } else {
        pattern == topic
    }
}

/// Check if a topic matches a pattern (supports a leading or trailing wildcard).
pub fn matches_pattern(pattern: &str, topic: &str) -> (r: bool)
    ensures
        r == pattern_matches(pattern@, topic@),
{
    let p = chars_of(pattern);
    let t = chars_of(topic);
    if vec_contains_char(&p, '*') {
        let n = p.len();
        if p[n - 1] == '*' {
            let prefix = subvec(&p, 0, n - 1);
            assert(prefix@ == p@.drop_last());
            vec_has_prefix(&t, &prefix)
        } else if p[0] == '*' {
            let suffix = subvec(&p, 1, n);
            assert(suffix@ == p@.drop_first());
            vec_has_suffix(&t, &suffix)
        } else {
            chars_eq(&p, &t)
        }
    } else {
        chars_eq(&p, &t)
    }
}

/// Whether every string of `want` is among `have`.
pub open spec fn has_all(have: Seq<Seq<char>>, want: Seq<Seq<char>>) -> bool {
    forall|i: int| 0 <= i < want.len() ==> have.contains(#[trigger] want[i])
}

/// Whether some string of `want` is among `have`.
pub open spec fn has_any(have: Seq<Seq<char>>, want: Seq<Seq<char>>) -> bool {
    exists|i: int| 0 <= i < want.len() && have.contains(#[trigger] want[i])
}

/// Whether every key/value pair of `want` is stored in `have`.
pub open spec fn headers_match(have: Seq<(String, String)>, want: Seq<(String, String)>) -> bool {
    forall|i: int| 0 <= i < want.len() ==> header_value(have, (#[trigger] want[i]).0@) == Some(want[i].1@)
}

/// Every constraint of the filter except expiration holds of the message.
pub open spec fn filter_admits_ignoring_expiry(m: Message, f: MessageFilter) -> bool {
    &&& (f.topics matches Some(ts) ==> string_views(ts@).contains(m.topic@))
    &&& (f.topic_patterns matches Some(ps) ==> any_pattern_matches(string_views(ps@), m.topic@))
    &&& (f.senders matches Some(ss) ==> string_views(ss@).contains(m.sender@))
    &&& (f.recipients matches Some(rs) ==> (m.recipients@.len() == 0 || has_any(
        string_views(m.recipients@),
        string_views(rs@),
    )))
    &&& (f.time_range matches Some(range) ==> !ts_before(m.timestamp, range.0) && !ts_before(
        range.1,
        m.timestamp,
    ))
    &&& (f.importance_range matches Some(range) ==> (m.importance matches Some(i) && !float_lt(
        i,
        range.0,
    ) && !float_lt(range.1, i)))
    &&& (f.tags matches Some(ts) ==> has_all(string_views(m.tags@), string_views(ts@)))
    &&& (f.tags_any matches Some(ts) ==> has_any(string_views(m.tags@), string_views(ts@)))
    &&& (f.headers matches Some(hs) ==> headers_match(m.headers@, hs@))
    &&& (f.content_query matches Some(q) ==> contains_seq(lowercase_chars(m.content@), lowercase_chars(q@)))
}

/// Whether the message passes the filter at the time `now`.
pub open spec fn filter_admits(m: Message, f: MessageFilter, now: Timestamp) -> bool {
    &&& filter_admits_ignoring_expiry(m, f)
    &&& (!f.include_expired ==> !expired_at(m.expires_at, now))
}

/// A filter that sets tags admits a message only if the message carries every
/// one of them: one listed tag the message lacks refuses it, whatever else
/// the filter allows (unlike `tags_any`, where one shared tag is enough).
pub proof fn lemma_tags_filter_needs_every_tag(m: Message, f: MessageFilter, now: Timestamp, i: int)
    requires
        f.tags matches Some(ts) && 0 <= i < ts@.len() && !string_views(m.tags@).contains(ts@[i]@),
    ensures
        !filter_admits(m, f, now),
{
    let ts = f.tags->Some_0;
    assert(string_views(ts@)[i] == ts@[i]@);
}

/// A filter that sets only tags (and lets expired messages through) admits
/// exactly the messages that carry every listed tag.
pub proof fn lemma_tags_filter_admits_carriers(m: Message, f: MessageFilter, now: Timestamp)
    requires
        f.tags is Some,
        f.topics is None && f.topic_patterns is None && f.senders is None && f.recipients is None,
        f.time_range is None && f.importance_range is None && f.tags_any is None,
        f.headers is None && f.content_query is None && f.include_expired,
    ensures
        filter_admits(m, f, now) <==> forall|i: int|
            0 <= i < f.tags->Some_0@.len() ==> string_views(m.tags@).contains(#[trigger] f.tags->Some_0@[i]@),
{
    let ts = f.tags->Some_0;
    if filter_admits(m, f, now) {
        assert forall|i: int| 0 <= i < ts@.len() implies string_views(m.tags@).contains(#[trigger] ts@[i]@) by {
            assert(string_views(ts@)[i] == ts@[i]@);
        }
    }
    if forall|i: int| 0 <= i < ts@.len() ==> string_views(m.tags@).contains(#[trigger] ts@[i]@) {
        assert forall|i: int| 0 <= i < string_views(ts@).len() implies string_views(m.tags@).contains(
            #[trigger] string_views(ts@)[i],
        ) by {
            assert(string_views(ts@)[i] == ts@[i]@);
        }
    }
}

/// Whether every string of `want` is among `have`.
fn contains_all(have: &Vec<String>, want: &Vec<String>) -> (r: bool)
    ensures
        r == has_all(string_views(have@), string_views(want@)),
{
    let mut i: usize = 0;
    while i < want.len()
        invariant
            i <= want.len(),
            forall|j: int| 0 <= j < i ==> string_views(have@).contains(#[trigger] string_views(want@)[j]),
        decreases want.len() - i,
    {
        if !strings_contain(have, want[i].as_str()) {
            assert(string_views(want@)[i as int] == want@[i as int]@);
            assert(!string_views(have@).contains(string_views(want@)[i as int]));
            return false;
        }
        i += 1;
    }
    true
}

/// Whether some string of `want` is among `have`.
fn contains_any(have: &Vec<String>, want: &Vec<String>) -> (r: bool)
    ensures
        r == has_any(string_views(have@), string_views(want@)),
{
    let mut i: usize = 0;
    while i < want.len()
        invariant
            i <= want.len(),
            forall|j: int| 0 <= j < i ==> !string_views(have@).contains(#[trigger] string_views(want@)[j]),
        decreases want.len() - i,
    {
        if strings_contain(have, want[i].as_str()) {
            assert(string_views(have@).contains(string_views(want@)[i as int]));
            return true;
        }
        i += 1;
    }
    false
}

/// Whether every pair of `want` is stored in `m`'s headers.
fn headers_all_match(m: &Message, want: &Vec<(String, String)>) -> (r: bool)
    ensures
        r == headers_match(m.headers@, want@),
{
    let mut i: usize = 0;
    while i < want.len()
        invariant
            i <= want.len(),
            forall|j: int| 0 <= j < i ==> header_value(m.headers@, (#[trigger] want@[j]).0@) == Some(want@[j].1@),
        decreases want.len() - i,
    {
        match m.get_header(want[i].0.as_str()) {
            Some(v) => {
                if !crate::text::str_eq(v.as_str(), want[i].1.as_str()) {
                    return false;
                }
            },
            None => {
                return false;
            },
        }
        i += 1;
    }
    true
}

/// Whether some pattern of `patterns` matches `topic`.
fn any_matches(patterns: &Vec<String>, topic: &str) -> (r: bool)
    ensures
        r == any_pattern_matches(string_views(patterns@), topic@),
{
    let mut i: usize = 0;
    while i < patterns.len()
        invariant
            i <= patterns.len(),
            forall|j: int| 0 <= j < i ==> !pattern_matches(#[trigger] string_views(patterns@)[j], topic@),
        decreases patterns.len() - i,
    {
        if matches_pattern(patterns[i].as_str(), topic) {
            assert(pattern_matches(string_views(patterns@)[i as int], topic@));
            return true;
        }
        i += 1;
    }
    false
}

/// Check if a message matches a filter at the time `now`.
pub fn matches_filter_at(message: &Message, filter: &MessageFilter, now: Timestamp) -> (r: bool)
    ensures
        r == filter_admits(*message, *filter, now),
{
    if let Some(topics) = &filter.topics {
        if !strings_contain(topics, message.topic.as_str()) {
            return false;
        }
    }
    if let Some(patterns) = &filter.topic_patterns {
        if !any_matches(patterns, message.topic.as_str()) {
            return false;
        }
    }
    if let Some(senders) = &filter.senders {
        if !strings_contain(senders, message.sender.as_str()) {
            return false;
        }
    }
    if let Some(recipients) = &filter.recipients {
        if message.recipients.len() == 0 {
            // A broadcast message matches any recipient filter.
        } else if !contains_any(&message.recipients, recipients) {
            return false;
        }
    }
    if let Some(range) = &filter.time_range {
        if message.timestamp.is_before(&range.0) || range.1.is_before(&message.timestamp) {
            return false;
        }
    }
    if let Some(range) = &filter.importance_range {
        match &message.importance {
            Some(importance) => {
                if importance.lt(&range.0) || range.1.lt(importance) {
                    return false;
                }
            },
            None => {
                return false;
            },
        }
    }
    if let Some(tags) = &filter.tags {
        if !contains_all(&message.tags, tags) {
            return false;
        }
    }
    if let Some(tags_any) = &filter.tags_any {
        if !contains_any(&message.tags, tags_any) {
            return false;
        }
    }
    if let Some(headers) = &filter.headers {
        if !headers_all_match(message, headers) {
            return false;
        }
    }
    if !filter.include_expired && message.is_expired_at(now) {
        return false;
    }
    if let Some(query) = &filter.content_query {
        let content_lower = to_lowercase(message.content.as_str());
        let query_lower = to_lowercase(query.as_str());
        if !str_contains(content_lower.as_str(), query_lower.as_str()) {
            return false;
        }
    }
    true
}

/// Check if a message matches a filter, reading the clock for the expiration
/// check: the result is that of `matches_filter_at` at some time, so every
/// constraint but expiration is decided exactly, and a filter that includes
/// expired messages, or a message without an expiration time, is decided
/// without regard to the clock.
pub fn matches_filter(message: &Message, filter: &MessageFilter) -> (r: bool)
    ensures
        r ==> filter_admits_ignoring_expiry(*message, *filter),
        (filter.include_expired || message.expires_at is None) ==> (r == filter_admits_ignoring_expiry(
            *message,
            *filter,
        )),
        exists|t: Timestamp| r == filter_admits(*message, *filter, t),
{
    let t = now();
    matches_filter_at(message, filter, t)
}

} // verus!

//! Message types for the embedded messaging system.

use vstd::prelude::*;
use crate::text::str_eq;
use crate::time::{Timestamp, OrderedFloat, ts_before, now, new_uuid, uuid_shaped};
use crate::messaging::filters::string_views;

verus! {

/// Unique identifier for messages.
#[derive(Debug, Clone, PartialEq, Eq, Hash)]
pub struct MessageId(pub String);

impl MessageId {
    /// Create a new unique message ID (a random UUID); `None` when the
    /// operating system's random source fails.
    pub fn new() -> (r: Option<Self>)
        ensures
            r matches Some(id) ==> uuid_shaped(id.0@),
    {
        match new_uuid() {
            Some(s) => Some(MessageId(s)),
            None => None,
        }
    }

    /// Create a message ID from a string.
    pub fn from_string(id: String) -> (m: Self)
        ensures
            m.0 == id,
    {
        MessageId(id)
    }

    /// Get the string representation of the message ID.
    pub fn as_str(&self) -> (s: &str)
        ensures
            s@ == self.0@,
    {
        self.0.as_str()
    }

    /// The message ID as an owned string.
    pub fn to_string(&self) -> (s: String)
        ensures
            s@ == self.0@,
    {
        self.0.clone()
    }
}


impl From<String> for MessageId {
    fn from(s: String) -> (m: Self)
        ensures
            m.0 == s,
    {
        MessageId(s)
    }
}

impl vstd::std_specs::convert::FromSpecImpl<String> for MessageId {
    open spec fn obeys_from_spec() -> bool {
        true
    }

    open spec fn from_spec(s: String) -> Self {
        MessageId(s)
    }
}

impl<'a> From<&'a str> for MessageId {
    fn from(s: &'a str) -> (m: Self)
        ensures
            m.0@ == s@,
    {
        MessageId(String::from_str(s))
    }
}

impl<'a> vstd::std_specs::convert::FromSpecImpl<&'a str> for MessageId {
    open spec fn obeys_from_spec() -> bool {
        false
    }

    open spec fn from_spec(s: &'a str) -> Self {
        arbitrary()
    }
}

/// The value stored under `key` in a list of unique-keyed headers, if any.
pub open spec fn header_value(headers: Seq<(String, String)>, key: Seq<char>) -> Option<Seq<char>>
    decreases headers.len(),
{
    if headers.len() == 0 {
        None
    } else if headers[0].0@ == key {
        Some(headers[0].1@)
    } else {
        header_value(headers.drop_first(), key)
    }
}

/// A message in the embedded messaging system.
///
/// The message content is held as its JSON text, the headers as a list of
/// key/value pairs with distinct keys, and the importance score as an
/// [`OrderedFloat`].
#[derive(Debug, Clone)]
pub struct Message {
    /// Unique identifier for this message
    pub id: MessageId,
    /// Topic this message was sent to
    pub topic: String,
    /// ID of the sender (app_id)
    pub sender: String,
    /// List of specific recipients (empty = broadcast)
    pub recipients: Vec<String>,
    /// Message content as JSON text
    pub content: String,
    /// Additional message headers
    pub headers: Vec<(String, String)>,
    /// When the message was created
    pub timestamp: Timestamp,
    /// Optional expiration time
    pub expires_at: Option<Timestamp>,
    /// Importance score for prioritization
    pub importance: Option<OrderedFloat>,
    /// Tags for categorization
    pub tags: Vec<String>,
}

/// Whether a message with the given expiration time has expired at `now`.
pub open spec fn expired_at(expires_at: Option<Timestamp>, now: Timestamp) -> bool {
    match expires_at {
        Some(e) => ts_before(e, now),
        None => false,
    }
}

impl Message {
    /// Create a new message with a fresh ID, stamped with the current time,
    /// without recipients, headers, expiration, importance or tags; `None`
    /// when no fresh ID can be drawn.
    pub fn new(topic: String, sender: String, content: String) -> (r: Option<Self>)
        ensures
            r matches Some(m) ==> {
                &&& m.topic == topic
                &&& m.sender == sender
                &&& m.content == content
                &&& m.recipients@.len() == 0
                &&& m.headers@.len() == 0
                &&& m.expires_at is None
                &&& m.importance is None
                &&& m.tags@.len() == 0
                &&& uuid_shaped(m.id.0@)
            },
    {
        let id = match MessageId::new() {
            Some(id) => id,
            None => {
                return None;
            },
        };
        let timestamp = now();
        Some(
            Message {
                id,
                topic,
                sender,
                recipients: Vec::new(),
                content,
                headers: Vec::new(),
                timestamp,
                expires_at: None,
                importance: None,
                tags: Vec::new(),
            },
        )
    }

    /// Add a recipient to this message.
    pub fn add_recipient(self, recipient: &str) -> (m: Self)
        ensures
            string_views(m.recipients@) == string_views(self.recipients@).push(recipient@),
            m == (Message { recipients: m.recipients, ..self }),
    {
        let mut m = self;
        m.recipients.push(String::from_str(recipient));
        assert(string_views(m.recipients@) =~= string_views(self.recipients@).push(recipient@));
        m
    }

    /// Add a header to this message, replacing any value already under `key`.
    pub fn add_header(self, key: &str, value: &str) -> (m: Self)
        ensures
            header_value(m.headers@, key@) == Some(value@),
            forall|k: Seq<char>| k != key@ ==> header_value(m.headers@, k) == header_value(
                self.headers@,
                k,
            ),
            m == (Message { headers: m.headers, ..self }),
    {
        let mut m = self;
        let headers = set_header(m.headers, key, value);
        m.headers = headers;
        m
    }

    /// Set the expiration time for this message.
    pub fn expires_at(self, expires_at: Timestamp) -> (m: Self)
        ensures
            m == (Message { expires_at: Some(expires_at), ..self }),
    {
        let mut m = self;
        m.expires_at = Some(expires_at);
        m
    }

    /// Set the importance score for this message.
    pub fn importance(self, importance: OrderedFloat) -> (m: Self)
        ensures
            m == (Message { importance: Some(importance), ..self }),
    {
        let mut m = self;
        m.importance = Some(importance);
        m
    }

    /// Add a tag to this message.
    pub fn add_tag(self, tag: &str) -> (m: Self)
        ensures
            string_views(m.tags@) == string_views(self.tags@).push(tag@),
            m == (Message { tags: m.tags, ..self }),
    {
        let mut m = self;
        m.tags.push(String::from_str(tag));
        assert(string_views(m.tags@) =~= string_views(self.tags@).push(tag@));
        m
    }

    /// Add several recipients to this message, in order.
    pub fn add_recipients(self, recipients: Vec<&str>) -> (m: Self)
        ensures
            string_views(m.recipients@) == string_views(self.recipients@) + recipients@.map_values(|r: &str| r@),
            m == (Message { recipients: m.recipients, ..self }),
    {
        let mut m = self;
        m.recipients = append_strs(m.recipients, &recipients);
        m
    }

    /// Add several tags to this message, in order.
    pub fn add_tags(self, tags: Vec<&str>) -> (m: Self)
        ensures
            string_views(m.tags@) == string_views(self.tags@) + tags@.map_values(|t: &str| t@),
            m == (Message { tags: m.tags, ..self }),
    {
        let mut m = self;
        m.tags = append_strs(m.tags, &tags);
        m
    }

    /// Whether this message has expired at the time `now`.
    pub fn is_expired_at(&self, now: Timestamp) -> (r: bool)
        ensures
            r == expired_at(self.expires_at, now),
    {
        match self.expires_at {
            Some(e) => e.is_before(&now),
            None => false,
        }
    }

    /// Check if this message has expired, reading the clock: a message without
    /// an expiration time never has.
    pub fn is_expired(&self) -> (r: bool)
        ensures
            r ==> self.expires_at is Some,
            exists|t: Timestamp| r == expired_at(self.expires_at, t),
    {
        let t = now();
        self.is_expired_at(t)
    }

    /// Get a header value.
    pub fn get_header(&self, key: &str) -> (r: Option<&String>)
        ensures
            match r {
                Some(v) => header_value(self.headers@, key@) == Some(v@),
                None => header_value(self.headers@, key@) is None,
            },
    {
        lookup_header(&self.headers, key)
    }

    /// Check if message has a specific tag.
    pub fn has_tag(&self, tag: &str) -> (r: bool)
        ensures
            r == string_views(self.tags@).contains(tag@),
    {
        strings_contain(&self.tags, tag)
    }
}

/// Whether one of `v` holds the characters of `s`.
pub fn strings_contain(v: &Vec<String>, s: &str) -> (r: bool)
    ensures
        r == string_views(v@).contains(s@),
{
    let mut i: usize = 0;
    while i < v.len()
        invariant
            i <= v.len(),
            forall|j: int| 0 <= j < i ==> v@[j]@ != s@,
        decreases v.len() - i,
    {
        if str_eq(v[i].as_str(), s) {
            assert(string_views(v@)[i as int] == s@);
            return true;
        }
        i += 1;
    }
    proof {
        if string_views(v@).contains(s@) {
            let k = choose|k: int| 0 <= k < string_views(v@).len() && string_views(v@)[k] == s@;
            assert(v@[k]@ != s@);
        }
    }
    false
}

/// The value stored under `key`, if any.
pub fn lookup_header<'a>(headers: &'a Vec<(String, String)>, key: &str) -> (r: Option<&'a String>)
    ensures
        match r {
            Some(v) => header_value(headers@, key@) == Some(v@),
            None => header_value(headers@, key@) is None,
        },
{
    let mut i: usize = 0;
    assert(headers@.skip(0) =~= headers@);
    while i < headers.len()
        invariant
            i <= headers.len(),
            forall|j: int| 0 <= j < i ==> headers@[j].0@ != key@,
            header_value(headers@, key@) == header_value(headers@.skip(i as int), key@),
        decreases headers.len() - i,
    {
        assert(headers@.skip(i as int).drop_first() =~= headers@.skip(i + 1));
        if str_eq(headers[i].0.as_str(), key) {
            return Some(&headers[i].1);
        }
        i += 1;
    }
    None
}

/// `header_value` of the headers after position `i` agrees with that of all of
/// them when no key before `i` is `key`.
proof fn lemma_header_value_skip(headers: Seq<(String, String)>, key: Seq<char>, i: int)
    requires
        0 <= i <= headers.len(),
        forall|j: int| 0 <= j < i ==> headers[j].0@ != key,
    ensures
        header_value(headers, key) == header_value(headers.skip(i), key),
    decreases i,
{
    if i > 0 {
        assert(headers.skip(1).skip(i - 1) =~= headers.skip(i));
        lemma_header_value_skip(headers.drop_first(), key, i - 1);
    } else {
        assert(headers.skip(0) =~= headers);
    }
}

/// `header_value` after replacing the value at position `k`.
proof fn lemma_header_value_update(headers: Seq<(String, String)>, k: int, pair: (String, String), key: Seq<char>)
    requires
        0 <= k < headers.len(),
        headers[k].0@ == pair.0@,
        forall|j: int| 0 <= j < k ==> headers[j].0@ != pair.0@,
    ensures
        header_value(headers.update(k, pair), key) == if key == pair.0@ {
            Some(pair.1@)
        } else {
            header_value(headers, key)
        },
    decreases k,
{
    let u = headers.update(k, pair);
    if k > 0 {
        assert(u.drop_first() =~= headers.drop_first().update(k - 1, pair));
        lemma_header_value_update(headers.drop_first(), k - 1, pair, key);
        assert(u[0] == headers[0]);
    } else {
        assert(u.drop_first() =~= headers.drop_first());
        assert(u[0] == pair);
    }
}

/// `header_value` after appending a pair with a new key.
proof fn lemma_header_value_push(headers: Seq<(String, String)>, pair: (String, String), key: Seq<char>)
    requires
        header_value(headers, pair.0@) is None,
    ensures
        header_value(headers.push(pair), key) == if key == pair.0@ {
            Some(pair.1@)
        } else {
            header_value(headers, key)
        },
    decreases headers.len(),
{
    let p = headers.push(pair);
    if headers.len() > 0 {
        assert(p.drop_first() =~= headers.drop_first().push(pair));
        assert(p[0] == headers[0]);
        assert(headers[0].0@ != pair.0@);
        assert(header_value(headers.drop_first(), pair.0@) is None);
        lemma_header_value_push(headers.drop_first(), pair, key);
    } else {
        assert(p.drop_first() =~= Seq::<(String, String)>::empty());
        assert(p[0] == pair);
        assert(header_value(p.drop_first(), key) is None);
    }
}

/// The headers with `value` stored under `key`, replacing any earlier value.
fn set_header(input: Vec<(String, String)>, key: &str, value: &str) -> (r: Vec<(String, String)>)
    ensures
        header_value(r@, key@) == Some(value@),
        forall|k: Seq<char>| k != key@ ==> header_value(r@, k) == header_value(input@, k),
{
    let mut headers = input;
    let mut i: usize = 0;
    while i < headers.len()
        invariant
            i <= headers.len(),
            headers@ == input@,
            forall|j: int| 0 <= j < i ==> headers@[j].0@ != key@,
        decreases headers.len() - i,
    {
        if str_eq(headers[i].0.as_str(), key) {
            let ghost before = headers@;
            let pair = (String::from_str(key), String::from_str(value));
            headers.set(i, pair);
            assert(headers@ == before.update(i as int, pair));
            proof {
                lemma_header_value_update(before, i as int, pair, key@);
                assert forall|k: Seq<char>| k != key@ implies header_value(headers@, k) == header_value(before, k) by {
                    lemma_header_value_update(before, i as int, pair, k);
                }
            }
            return headers;
        }
        i += 1;
    }
    let ghost before = headers@;
    let pair = (String::from_str(key), String::from_str(value));
    proof {
        lemma_header_value_skip(before, key@, before.len() as int);
        assert(before.skip(before.len() as int) =~= Seq::<(String, String)>::empty());
    }
    headers.push(pair);
    proof {
        lemma_header_value_push(before, pair, key@);
        assert forall|k: Seq<char>| k != key@ implies header_value(headers@, k) == header_value(before, k) by {
            lemma_header_value_push(before, pair, k);
        }
    }
    headers
}

/// `v` with owned copies of the strings of `extra` added at the end.
pub fn append_strs(v: Vec<String>, extra: &Vec<&str>) -> (r: Vec<String>)
    ensures
        string_views(r@) == string_views(v@) + extra@.map_values(|s: &str| s@),
{
    let mut r = v;
    let ghost start = string_views(r@);
    let mut i: usize = 0;
    while i < extra.len()
        invariant
            i <= extra.len(),
            string_views(r@) == start + extra@.take(i as int).map_values(|s: &str| s@),
        decreases extra.len() - i,
    {
        let ghost before = r@;
        r.push(String::from_str(extra[i]));
        assert(string_views(r@) =~= string_views(before).push(extra@[i as int]@));
        assert(extra@.take(i + 1).map_values(|s: &str| s@) =~= extra@.take(i as int).map_values(|s: &str| s@).push(
            extra@[i as int]@,
        ));
        i += 1;
    }
    assert(extra@.take(extra.len() as int) =~= extra@);
    r
}

/// Owned copies of the strings of `v`.
pub fn owned_strs(v: &Vec<&str>) -> (r: Vec<String>)
    ensures
        string_views(r@) == v@.map_values(|s: &str| s@),
{
    let empty: Vec<String> = Vec::new();
    assert(string_views(empty@) =~= Seq::<Seq<char>>::empty());
    let r = append_strs(empty, v);
    assert(Seq::<Seq<char>>::empty() + v@.map_values(|s: &str| s@) =~= v@.map_values(|s: &str| s@));
    r
}

/// Filter for selecting messages; a `None` field places no constraint.
#[derive(Debug, Clone)]
pub struct MessageFilter {
    /// Exact topic matches
    pub topics: Option<Vec<String>>,
    /// Wildcard patterns like "character.*"
    pub topic_patterns: Option<Vec<String>>,
    /// Filter by sender app IDs
    pub senders: Option<Vec<String>>,
    /// Filter by recipient app IDs
    pub recipients: Option<Vec<String>>,
    /// Filter by source app (for cross-app messaging)
    pub source_app: Option<String>,
    /// Search on content
    pub content_query: Option<String>,
    /// Filter by headers (key-value pairs with distinct keys must match exactly)
    pub headers: Option<Vec<(String, String)>>,
    /// Time range filter
    pub time_range: Option<(Timestamp, Timestamp)>,
    /// Importance range filter
    pub importance_range: Option<(OrderedFloat, OrderedFloat)>,
    /// Filter by tags (message must have all specified tags)
    pub tags: Option<Vec<String>>,
    /// Filter by tags (message must have any of these tags)
    pub tags_any: Option<Vec<String>>,
    /// Include expired messages (default: false)
    pub include_expired: bool,
}

impl Default for MessageFilter {
    fn default() -> (f: Self)
        ensures
            f.topics is None && f.topic_patterns is None && f.senders is None,
            f.recipients is None && f.source_app is None && f.content_query is None,
            f.headers is None && f.time_range is None && f.importance_range is None,
            f.tags is None && f.tags_any is None && !f.include_expired,
    {
        MessageFilter {
            topics: None,
            topic_patterns: None,
            senders: None,
            recipients: None,
            source_app: None,
            content_query: None,
            headers: None,
            time_range: None,
            importance_range: None,
            tags: None,
            tags_any: None,
            include_expired: false,
        }
    }
}

impl MessageFilter {
    /// Create a new empty filter.
    pub fn new() -> (f: Self)
        ensures
            f.topics is None && f.topic_patterns is None && f.senders is None,
            f.recipients is None && f.source_app is None && f.content_query is None,
            f.headers is None && f.time_range is None && f.importance_range is None,
            f.tags is None && f.tags_any is None && !f.include_expired,
    {
        Self::default()
    }

    /// Filter by specific topics.
    pub fn topics(self, topics: Vec<&str>) -> (f: Self)
        ensures
            f == (MessageFilter { topics: f.topics, ..self }),
            f.topics matches Some(t) && string_views(t@) == topics@.map_values(|s: &str| s@),
    {
        let mut f = self;
        f.topics = Some(owned_strs(&topics));
        f
    }

    /// Filter by topic patterns.
    pub fn topic_patterns(self, patterns: Vec<&str>) -> (f: Self)
        ensures
            f == (MessageFilter { topic_patterns: f.topic_patterns, ..self }),
            f.topic_patterns matches Some(t) && string_views(t@) == patterns@.map_values(|s: &str| s@),
    {
        let mut f = self;
        f.topic_patterns = Some(owned_strs(&patterns));
        f
    }

    /// Filter by senders.
    pub fn senders(self, senders: Vec<&str>) -> (f: Self)
        ensures
            f == (MessageFilter { senders: f.senders, ..self }),
            f.senders matches Some(t) && string_views(t@) == senders@.map_values(|s: &str| s@),
    {
        let mut f = self;
        f.senders = Some(owned_strs(&senders));
        f
    }

    /// Filter by recipients.
    pub fn recipients(self, recipients: Vec<&str>) -> (f: Self)
        ensures
            f == (MessageFilter { recipients: f.recipients, ..self }),
            f.recipients matches Some(t) && string_views(t@) == recipients@.map_values(|s: &str| s@),
    {
        let mut f = self;
        f.recipients = Some(owned_strs(&recipients));
        f
    }

    /// Filter by source app (for cross-app messaging).
    pub fn source_app(self, app: &str) -> (f: Self)
        ensures
            f == (MessageFilter { source_app: f.source_app, ..self }),
            f.source_app matches Some(a) && a@ == app@,
    {
        let mut f = self;
        f.source_app = Some(String::from_str(app));
        f
    }

    /// Filter by content query.
    pub fn content_query(self, query: &str) -> (f: Self)
        ensures
            f == (MessageFilter { content_query: f.content_query, ..self }),
            f.content_query matches Some(q) && q@ == query@,
    {
        let mut f = self;
        f.content_query = Some(String::from_str(query));
        f
    }

    /// Filter by time range.
    pub fn time_range(self, start: Timestamp, end: Timestamp) -> (f: Self)
        ensures
            f == (MessageFilter { time_range: Some((start, end)), ..self }),
    {
        let mut f = self;
        f.time_range = Some((start, end));
        f
    }

    /// Filter by importance range.
    pub fn importance_range(self, min: OrderedFloat, max: OrderedFloat) -> (f: Self)
        ensures
            f == (MessageFilter { importance_range: Some((min, max)), ..self }),
    {
        let mut f = self;
        f.importance_range = Some((min, max));
        f
    }

    /// Filter by tags (the message must have all).
    pub fn tags(self, tags: Vec<&str>) -> (f: Self)
        ensures
            f == (MessageFilter { tags: f.tags, ..self }),
            f.tags matches Some(t) && string_views(t@) == tags@.map_values(|s: &str| s@),
    {
        let mut f = self;
        f.tags = Some(owned_strs(&tags));
        f
    }

    /// Filter by tags (the message must have any).
    pub fn tags_any(self, tags: Vec<&str>) -> (f: Self)
        ensures
            f == (MessageFilter { tags_any: f.tags_any, ..self }),
            f.tags_any matches Some(t) && string_views(t@) == tags@.map_values(|s: &str| s@),
    {
        let mut f = self;
        f.tags_any = Some(owned_strs(&tags));
        f
    }

    /// Include expired messages, or not.
    pub fn include_expired(self, included: bool) -> (f: Self)
        ensures
            f == (MessageFilter { include_expired: included, ..self }),
    {
        let mut f = self;
        f.include_expired = included;
        f
    }

    /// Add a header filter, replacing any value already required under `key`.
    pub fn add_header(self, key: &str, value: &str) -> (f: Self)
        ensures
            f == (MessageFilter { headers: f.headers, ..self }),
            f.headers matches Some(h) && header_value(h@, key@) == Some(value@),
            forall|k: Seq<char>|
                k != key@ ==> header_value(f.headers->0@, k) == match self.headers {
                    Some(h) => header_value(h@, k),
                    None => None,
                },
    {
        let mut f = self;
        let headers = match f.headers {
            Some(h) => h,
            None => Vec::new(),
        };
        f.headers = Some(set_header(headers, key, value));
        f
    }
}

/// Builder for creating messages with a fluent interface.
pub struct MessageBuilder {
    message: Message,
}

impl MessageBuilder {
    /// The message under construction.
    pub closed spec fn message(&self) -> Message {
        self.message
    }

    /// Create a new message builder; `None` when no fresh message ID can be
    /// drawn.
    pub fn new(topic: &str, sender: &str, content: &str) -> (r: Option<Self>)
        ensures
            r matches Some(b) ==> {
                &&& b.message().topic@ == topic@
                &&& b.message().sender@ == sender@
                &&& b.message().content@ == content@
                &&& b.message().recipients@.len() == 0
                &&& b.message().headers@.len() == 0
                &&& b.message().expires_at is None
                &&& b.message().importance is None
                &&& b.message().tags@.len() == 0
            },
    {
        match Message::new(String::from_str(topic), String::from_str(sender), String::from_str(content)) {
            Some(message) => Some(MessageBuilder { message }),
            None => None,
        }
    }

    /// Add a recipient.
    pub fn recipient(self, recipient: &str) -> (b: Self)
        ensures
            string_views(b.message().recipients@) == string_views(self.message().recipients@).push(recipient@),
            b.message() == (Message { recipients: b.message().recipients, ..self.message() }),
    {
        MessageBuilder { message: self.message.add_recipient(recipient) }
    }

    /// Add several recipients.
    pub fn recipients(self, recipients: Vec<&str>) -> (b: Self)
        ensures
            string_views(b.message().recipients@) == string_views(self.message().recipients@)
                + recipients@.map_values(|r: &str| r@),
            b.message() == (Message { recipients: b.message().recipients, ..self.message() }),
    {
        MessageBuilder { message: self.message.add_recipients(recipients) }
    }

    /// Add a header.
    pub fn header(self, key: &str, value: &str) -> (b: Self)
        ensures
            header_value(b.message().headers@, key@) == Some(value@),
            forall|k: Seq<char>| k != key@ ==> header_value(b.message().headers@, k) == header_value(
                self.message().headers@,
                k,
            ),
            b.message() == (Message { headers: b.message().headers, ..self.message() }),
    {
        MessageBuilder { message: self.message.add_header(key, value) }
    }

    /// Set the expiration time.
    pub fn expires_at(self, expires_at: Timestamp) -> (b: Self)
        ensures
            b.message() == (Message { expires_at: Some(expires_at), ..self.message() }),
    {
        MessageBuilder { message: self.message.expires_at(expires_at) }
    }

    /// Set the importance.
    pub fn importance(self, importance: OrderedFloat) -> (b: Self)
        ensures
            b.message() == (Message { importance: Some(importance), ..self.message() }),
    {
        MessageBuilder { message: self.message.importance(importance) }
    }

    /// Add a tag.
    pub fn tag(self, tag: &str) -> (b: Self)
        ensures
            string_views(b.message().tags@) == string_views(self.message().tags@).push(tag@),
            b.message() == (Message { tags: b.message().tags, ..self.message() }),
    {
        MessageBuilder { message: self.message.add_tag(tag) }
    }

    /// Add several tags.
    pub fn tags(self, tags: Vec<&str>) -> (b: Self)
        ensures
            string_views(b.message().tags@) == string_views(self.message().tags@) + tags@.map_values(
                |t: &str| t@,
            ),
            b.message() == (Message { tags: b.message().tags, ..self.message() }),
    {
        MessageBuilder { message: self.message.add_tags(tags) }
    }

    /// Build the message.
    pub fn build(self) -> (m: Message)
        ensures
            m == self.message(),
    {
        self.message
    }
}


} // verus!

//! Message filtering and topic matching utilities.

use vstd::prelude::*;
use crate::text::{chars_of, str_eq, subvec, vec_has_prefix, vec_find_char, string_from_chars, has_prefix,
    first_index_of, opt_view};
use crate::messaging::types::MessageFilter;
use crate::storage::filters::MemoryFilter;
use crate::error::LocaiError;
use crate::messaging::stream::utils::{matches_pattern, pattern_matches};
use crate::memory::utils::memory_filter_admits;
use crate::models::memory::MemoryView;
use crate::time::Timestamp;

verus! {

/// The character views of a sequence of strings.
pub open spec fn string_views(v: Seq<String>) -> Seq<Seq<char>> {
    v.map_values(|s: String| s@)
}

/// Whether some pattern of `patterns` matches `topic`.
pub open spec fn any_pattern_matches(patterns: Seq<Seq<char>>, topic: Seq<char>) -> bool {
    exists|i: int| 0 <= i < patterns.len() && pattern_matches(#[trigger] patterns[i], topic)
}

/// The prefix that marks a namespaced topic.
pub open spec fn app_prefix() -> Seq<char> {
    seq!['a', 'p', 'p', ':']
}

/// The topic base of a full topic path: for `app:<sender>.<rest>` it is `<rest>`,
/// for `app:<sender>` without a dot it is `<sender>`, and any other topic is its
/// own base.
pub open spec fn topic_base(full: Seq<char>) -> Seq<char> {
    if has_prefix(full, app_prefix()) {
        let rest = full.skip(4);
        match first_index_of(rest, '.') {
            Some(i) => rest.skip(i + 1),
            None => rest,
        }
    } else {
        full
    }
}

/// The namespace of a topic: everything before its first dot, or the whole topic.
pub open spec fn topic_namespace(topic: Seq<char>) -> Seq<char> {
    match first_index_of(topic, '.') {
        Some(i) => topic.take(i),
        None => topic,
    }
}

/// `namespace.pattern`.
pub open spec fn namespaced(namespace: Seq<char>, pattern: Seq<char>) -> Seq<char> {
    namespace + seq!['.'] + pattern
}

/// Topic matcher for wildcard pattern matching.
#[derive(Debug, Clone)]
pub struct TopicMatcher {
    patterns: Vec<String>,
}

impl View for TopicMatcher {
    type V = Seq<Seq<char>>;

    closed spec fn view(&self) -> Seq<Seq<char>> {
        string_views(self.patterns@)
    }
}

impl TopicMatcher {
    /// The matcher whose pattern list is `patterns`.
    pub closed spec fn holding(patterns: Vec<String>) -> Self {
        TopicMatcher { patterns }
    }

    /// Create a new topic matcher with the given patterns.
    pub fn new(patterns: Vec<String>) -> (m: Self)
        ensures
            m@ == string_views(patterns@),
            m == Self::holding(patterns),
    {
        Self { patterns }
    }

    /// Check if a topic matches any of the patterns.
    pub fn matches(&self, topic: &str) -> (r: bool)
        ensures
            r == any_pattern_matches(self@, topic@),
    {
        let mut i: usize = 0;
        while i < self.patterns.len()
            invariant
                i <= self.patterns.len(),
                self@.len() == self.patterns@.len(),
                forall|j: int| 0 <= j < i ==> !pattern_matches(#[trigger] self@[j], topic@),
            decreases self.patterns.len() - i,
        {
            if self.match_pattern(self.patterns[i].as_str(), topic) {
                assert(pattern_matches(self@[i as int], topic@));
                return true;
            }
            i += 1;
        }
        false
    }

    /// Check if a topic matches a specific pattern.
    fn match_pattern(&self, pattern: &str, topic: &str) -> (r: bool)
        ensures
            r == pattern_matches(pattern@, topic@),
    {
        matches_pattern(pattern, topic)
    }

    /// Add a new pattern to the matcher.
    pub fn add_pattern(&mut self, pattern: &str)
        ensures
            final(self)@ == old(self)@.push(pattern@),
    {
        let s = String::from_str(pattern);
        self.patterns.push(s);
        assert(self@ =~= old(self)@.push(pattern@));
    }

    /// Remove the first pattern equal to `pattern`; whether one was there.
    pub fn remove_pattern(&mut self, pattern: &str) -> (removed: bool)
        ensures
            removed == old(self)@.contains(pattern@),
            removed ==> exists|k: int|
                0 <= k < old(self)@.len() && old(self)@[k] == pattern@
                    && (forall|j: int| 0 <= j < k ==> old(self)@[j] != pattern@)
                    && final(self)@ == old(self)@.remove(k),
            !removed ==> final(self)@ == old(self)@,
    {
        let mut i: usize = 0;
        while i < self.patterns.len()
            invariant
                i <= self.patterns.len(),
                self@.len() == self.patterns@.len(),
                self == old(self),
                forall|j: int| 0 <= j < i ==> self@[j] != pattern@,
            decreases self.patterns.len() - i,
        {
            if str_eq(self.patterns[i].as_str(), pattern) {
                let ghost before = self@;
                assert(before[i as int] == pattern@);
                self.patterns.remove(i);
                assert(self@ =~= before.remove(i as int));
                return true;
            }
            i += 1;
        }
        proof {
            assert forall|x: Seq<char>| self@.contains(x) implies x != pattern@ by {
                let k = choose|k: int| 0 <= k < self@.len() && self@[k] == x;
                assert(self@[k] != pattern@);
            }
        }
        false
    }

    /// Get all patterns.
    pub fn patterns(&self) -> (r: &[String])
        ensures
            string_views(r@) == self@,
    {
        self.patterns.as_slice()
    }

    /// Check if the matcher is empty.
    pub fn is_empty(&self) -> (r: bool)
        ensures
            r == (self@.len() == 0),
    {
        self.patterns.len() == 0
    }

    /// Clear all patterns.
    pub fn clear(&mut self)
        ensures
            final(self)@ == Seq::<Seq<char>>::empty(),
    {
        self.patterns.clear();
        assert(self@ =~= Seq::<Seq<char>>::empty());
    }

    /// A matcher holding each of the given patterns.
    fn from_strs(patterns: Vec<&str>) -> (m: Self)
        ensures
            m@ == patterns@.map_values(|s: &str| s@),
    {
        let mut out: Vec<String> = Vec::new();
        let mut i: usize = 0;
        while i < patterns.len()
            invariant
                i <= patterns.len(),
                out@.len() == i,
                forall|j: int| 0 <= j < i ==> #[trigger] out@[j]@ == patterns@[j]@,
            decreases patterns.len() - i,
        {
            out.push(String::from_str(patterns[i]));
            i += 1;
        }
        assert(string_views(out@) =~= patterns@.map_values(|s: &str| s@));
        Self { patterns: out }
    }
}

impl Default for TopicMatcher {
    fn default() -> (m: Self)
        ensures
            m@ == Seq::<Seq<char>>::empty(),
    {
        let m = Self::new(Vec::new());
        assert(m@ =~= Seq::<Seq<char>>::empty());
        m
    }
}

impl From<Vec<String>> for TopicMatcher {
    fn from(patterns: Vec<String>) -> (m: Self)
        ensures
            m@ == string_views(patterns@),
    {
        Self::new(patterns)
    }
}

impl vstd::std_specs::convert::FromSpecImpl<Vec<String>> for TopicMatcher {
    open spec fn obeys_from_spec() -> bool {
        true
    }

    open spec fn from_spec(v: Vec<String>) -> Self {
        TopicMatcher::holding(v)
    }
}

impl<'a> From<Vec<&'a str>> for TopicMatcher {
    fn from(patterns: Vec<&'a str>) -> (m: Self)
        ensures
            m@ == patterns@.map_values(|s: &str| s@),
    {
        Self::from_strs(patterns)
    }
}

impl<'a> vstd::std_specs::convert::FromSpecImpl<Vec<&'a str>> for TopicMatcher {
    open spec fn obeys_from_spec() -> bool {
        false
    }

    open spec fn from_spec(v: Vec<&'a str>) -> Self {
        arbitrary()
    }
}

/// A matcher matches a topic after `add_pattern(p)` exactly when it matched it
/// before or `p` matches it.
pub proof fn lemma_add_pattern_matches(patterns: Seq<Seq<char>>, p: Seq<char>, topic: Seq<char>)
    ensures
        any_pattern_matches(patterns.push(p), topic) == (any_pattern_matches(patterns, topic)
            || pattern_matches(p, topic)),
{
    let q = patterns.push(p);
    if any_pattern_matches(patterns, topic) {
        let i = choose|i: int| 0 <= i < patterns.len() && pattern_matches(#[trigger] patterns[i], topic);
        assert(q[i] == patterns[i]);
    }
    if pattern_matches(p, topic) {
        assert(q[patterns.len() as int] == p);
    }
    if any_pattern_matches(q, topic) {
        let i = choose|i: int| 0 <= i < q.len() && pattern_matches(#[trigger] q[i], topic);
        if i < patterns.len() {
            assert(q[i] == patterns[i]);
        }
    }
}

/// A matcher with no patterns matches no topic.
pub proof fn lemma_empty_matches_nothing(topic: Seq<char>)
    ensures
        !any_pattern_matches(Seq::<Seq<char>>::empty(), topic),
{
}

/// A pattern without a wildcard matches exactly the topic equal to it.
pub proof fn lemma_plain_pattern_is_exact(pattern: Seq<char>, topic: Seq<char>)
    requires
        !pattern.contains('*'),
    ensures
        pattern_matches(pattern, topic) == (pattern == topic),
{
}

/// A pattern `<prefix>*` whose prefix holds no wildcard matches exactly the topics
/// that start with the prefix.
pub proof fn lemma_trailing_wildcard(prefix: Seq<char>, topic: Seq<char>)
    requires
        !prefix.contains('*'),
    ensures
        pattern_matches(prefix.push('*'), topic) == has_prefix(topic, prefix),
{
    let p = prefix.push('*');
    assert(p[p.len() - 1] == '*');
    assert(p.contains('*'));
    assert(p.drop_last() =~= prefix);
}

/// A pattern `*<suffix>` whose suffix holds no wildcard matches exactly the
/// topics that end with the suffix: a topic that holds the suffix anywhere
/// but at its end is not matched.
pub proof fn lemma_leading_wildcard(suffix: Seq<char>, topic: Seq<char>)
    requires
        !suffix.contains('*'),
    ensures
        pattern_matches(seq!['*'] + suffix, topic) == (suffix.len() <= topic.len() && topic.subrange(
            topic.len() - suffix.len(),
            topic.len() as int,
        ) == suffix),
{
    let p = seq!['*'] + suffix;
    assert(p[0] == '*');
    assert(p.contains('*'));
    assert(p.drop_first() =~= suffix);
    if suffix.len() == 0 {
        assert(p =~= seq!['*']);
        assert(p.drop_last() =~= Seq::<char>::empty());
        assert(topic.subrange(topic.len() as int, topic.len() as int) =~= Seq::<char>::empty());
        assert(topic.subrange(0, 0) =~= Seq::<char>::empty());
        assert(pattern_matches(p, topic));
        assert(topic.subrange(topic.len() as int, topic.len() as int) =~= suffix);
    } else {
        assert(p.last() == suffix.last());
        assert(suffix.contains(suffix.last()));
        assert(p.last() != '*');
        assert(pattern_matches(p, topic) == crate::text::has_suffix(topic, suffix));
    }
}

/// The topic base of a topic namespaced for a sender is the topic itself: for
/// a sender without a dot, `app:<sender>.<topic>` has base `<topic>`.
pub proof fn lemma_namespaced_topic_base(sender: Seq<char>, topic: Seq<char>)
    requires
        !sender.contains('.'),
    ensures
        topic_base(namespaced(app_prefix() + sender, topic)) == topic,
{
    let full = namespaced(app_prefix() + sender, topic);
    assert(full.subrange(0, 4) =~= app_prefix());
    let rest = full.skip(4);
    assert(rest =~= sender + seq!['.'] + topic);
    let n = sender.len() as int;
    assert(rest[n] == '.');
    assert(rest.contains('.'));
    let i = choose|i: int| 0 <= i < rest.len() && rest[i] == '.' && forall|j: int| 0 <= j < i ==> rest[j] != '.';
    if i < n {
        assert(sender[i] == '.');
        assert(sender.contains('.'));
    } else if i > n {
        assert(rest[n] != '.');
    }
    assert(rest.skip(n + 1) =~= topic);
}

/// The namespace of a topic built under a namespace without a dot is that
/// namespace.
pub proof fn lemma_namespace_of_namespaced(namespace: Seq<char>, topic: Seq<char>)
    requires
        !namespace.contains('.'),
    ensures
        topic_namespace(namespaced(namespace, topic)) == namespace,
{
    let full = namespaced(namespace, topic);
    let n = namespace.len() as int;
    assert(full[n] == '.');
    assert(full.contains('.'));
    let i = choose|i: int| 0 <= i < full.len() && full[i] == '.' && forall|j: int| 0 <= j < i ==> full[j] != '.';
    if i < n {
        assert(namespace[i] == '.');
        assert(namespace.contains('.'));
    } else if i > n {
        assert(full[n] != '.');
    }
    assert(full.take(n) =~= namespace);
}

/// Removing a pattern the matcher holds once leaves it without that pattern.
pub proof fn lemma_remove_only_copy(patterns: Seq<Seq<char>>, p: Seq<char>, k: int)
    requires
        0 <= k < patterns.len(),
        patterns[k] == p,
        forall|j: int| 0 <= j < patterns.len() && j != k ==> patterns[j] != p,
    ensures
        !patterns.remove(k).contains(p),
        patterns.remove(k).len() == patterns.len() - 1,
{
    let r = patterns.remove(k);
    if r.contains(p) {
        let j = choose|j: int| 0 <= j < r.len() && r[j] == p;
        if j < k {
            assert(patterns[j] == p);
        } else {
            assert(patterns[j + 1] == p);
        }
    }
}

/// Extract the topic base from a full topic path.
/// Example: "app:sender.character.action" -> "character.action"
pub fn extract_topic_base(full_topic: &str) -> (r: String)
    ensures
        r@ == topic_base(full_topic@),
{
    let t = chars_of(full_topic);
    let app: Vec<char> = vec!['a', 'p', 'p', ':'];
    assert(app@ == app_prefix());
    if vec_has_prefix(&t, &app) {
        let rest = subvec(&t, 4, t.len());
        assert(rest@ == full_topic@.skip(4));
        match vec_find_char(&rest, '.') {
            Some(i) => {
                let tail = subvec(&rest, i + 1, rest.len());
                assert(tail@ == rest@.skip(i + 1));
                string_from_chars(tail.as_slice())
            },
            None => string_from_chars(rest.as_slice()),
        }
    } else {
        String::from_str(full_topic)
    }
}

/// Build topic patterns for namespace-aware matching: `namespace.pattern` for each pattern.
pub fn build_namespaced_patterns(namespace: &str, patterns: &[String]) -> (r: Vec<String>)
    ensures
        r@.len() == patterns@.len(),
        forall|i: int| 0 <= i < r@.len() ==> #[trigger] r@[i]@ == namespaced(namespace@, patterns@[i]@),
{
    let mut out: Vec<String> = Vec::new();
    let mut i: usize = 0;
    while i < patterns.len()
        invariant
            i <= patterns@.len(),
            out@.len() == i,
            forall|j: int| 0 <= j < i ==> #[trigger] out@[j]@ == namespaced(namespace@, patterns@[j]@),
        decreases patterns.len() - i,
    {
        let mut s = String::from_str(namespace);
        let dot = ".";
        proof {
            reveal_strlit(".");
        }
        s.append(dot);
        s.append(patterns[i].as_str());
        out.push(s);
        i += 1;
    }
    out
}

/// The memory type under which messages of a topic are stored: `msg:`
/// followed by the topic's base (so `msg:character.action` for the topic
/// `app:sender.character.action`).
pub open spec fn topic_memory_type(topic: Seq<char>) -> Option<Seq<char>> {
    Some(seq!['m', 's', 'g', ':'] + topic_base(topic))
}

/// The memory type of the first topic that has one.
pub open spec fn first_memory_type(topics: Seq<Seq<char>>) -> Option<Seq<char>>
    decreases topics.len(),
{
    if topics.len() == 0 {
        None
    } else {
        match topic_memory_type(topics[0]) {
            Some(t) => Some(t),
            None => first_memory_type(topics.drop_first()),
        }
    }
}

/// The tag searched for a topic pattern: the part before its first wildcard.
pub open spec fn pattern_tag(pattern: Seq<char>) -> Seq<char> {
    match first_index_of(pattern, '*') {
        Some(i) => pattern.take(i),
        None => pattern,
    }
}

/// The memory filter a message filter translates to.
pub open spec fn converted_filter(f: MessageFilter, m: MemoryFilter) -> bool {
    &&& opt_view(m.memory_type) == match f.topics {
        Some(ts) => first_memory_type(string_views(ts@)),
        None => None,
    }
    &&& match f.tags {
        Some(ts) => m.tags matches Some(mt) && string_views(mt@) == string_views(ts@),
        None => match f.topic_patterns {
            Some(ps) => if ps@.len() > 0 {
                m.tags matches Some(mt) && string_views(mt@) == string_views(ps@).map_values(
                    |p: Seq<char>| pattern_tag(p),
                )
            } else {
                m.tags is None
            },
            None => m.tags is None,
        },
    }
    &&& opt_view(m.source) == match f.senders {
        Some(ss) => if ss@.len() > 0 {
            Some(ss@[0]@)
        } else {
            None
        },
        None => None,
    }
    &&& m.created_after == match f.time_range {
        Some(r) => Some(r.0),
        None => None,
    }
    &&& m.created_before == match f.time_range {
        Some(r) => Some(r.1),
        None => None,
    }
    &&& opt_view(m.content) == opt_view(f.content_query)
}

/// `msg:` followed by the given characters.
fn msg_type(seg: &Vec<char>) -> (r: String)
    ensures
        r@ == seq!['m', 's', 'g', ':'] + seg@,
{
    let mut out: Vec<char> = vec!['m', 's', 'g', ':'];
    let mut k: usize = 0;
    while k < seg.len()
        invariant
            k <= seg.len(),
            out@ == seq!['m', 's', 'g', ':'] + seg@.take(k as int),
        decreases seg.len() - k,
    {
        out.push(seg[k]);
        assert(seg@.take(k + 1) =~= seg@.take(k as int).push(seg@[k as int]));
        k += 1;
    }
    assert(seg@.take(seg@.len() as int) =~= seg@);
    string_from_chars(out.as_slice())
}

/// The memory type of messages on `topic`.
fn topic_memory_type_of(topic: &str) -> (r: Option<String>)
    ensures
        opt_view(r) == topic_memory_type(topic@),
{
    let base = extract_topic_base(topic);
    let chars = chars_of(base.as_str());
    Some(msg_type(&chars))
}

/// The tag searched for a topic pattern.
fn pattern_tag_of(pattern: &str) -> (r: String)
    ensures
        r@ == pattern_tag(pattern@),
{
    let p = chars_of(pattern);
    match vec_find_char(&p, '*') {
        Some(i) => {
            let head = subvec(&p, 0, i);
            assert(head@ == p@.take(i as int));
            string_from_chars(head.as_slice())
        },
        None => String::from_str(pattern),
    }
}

/// Convert a message filter to a memory filter for database queries.
///
/// The first topic gives the memory type filter (`msg:` and its topic base); the
/// topic patterns, cut at their first wildcard, give the tag filter unless the
/// message filter names tags itself; the first sender gives the source; the
/// time range and the content query carry over.
pub fn convert_message_filter_to_memory_filter(filter: &MessageFilter) -> (r: Result<MemoryFilter, LocaiError>)
    ensures
        r matches Ok(m) && converted_filter(*filter, m),
{
    let mut memory_filter = MemoryFilter::default();
    if let Some(topics) = &filter.topics {
        let mut i: usize = 0;
        let mut found: Option<String> = None;
        assert(string_views(topics@).skip(0) =~= string_views(topics@));
        while i < topics.len()
            invariant
                i <= topics.len(),
                found is None ==> first_memory_type(string_views(topics@)) == first_memory_type(
                    string_views(topics@).skip(i as int),
                ),
                found is Some ==> opt_view(found) == first_memory_type(string_views(topics@)),
            decreases topics.len() - i,
        {
            if found.is_none() {
                let ghost rest = string_views(topics@).skip(i as int);
                assert(rest.drop_first() =~= string_views(topics@).skip(i + 1));
                assert(rest[0] == topics@[i as int]@);
                found = topic_memory_type_of(topics[i].as_str());
            }
            i += 1;
        }
        if found.is_none() {
            assert(string_views(topics@).skip(topics.len() as int).len() == 0);
        }
        assert(string_views(topics@).skip(0) =~= string_views(topics@));
        memory_filter.memory_type = found;
    }
    if let Some(patterns) = &filter.topic_patterns {
        let mut tags: Vec<String> = Vec::new();
        let mut i: usize = 0;
        while i < patterns.len()
            invariant
                i <= patterns.len(),
                tags@.len() == i,
                forall|j: int| 0 <= j < i ==> #[trigger] tags@[j]@ == pattern_tag(patterns@[j]@),
            decreases patterns.len() - i,
        {
            tags.push(pattern_tag_of(patterns[i].as_str()));
            i += 1;
        }
        assert(string_views(tags@) =~= string_views(patterns@).map_values(|p: Seq<char>| pattern_tag(p)));
        if tags.len() > 0 {
            memory_filter.tags = Some(tags);
        }
    }
    if let Some(senders) = &filter.senders {
        if senders.len() > 0 {
            memory_filter.source = Some(senders[0].clone());
        }
    }
    if let Some(range) = &filter.time_range {
        memory_filter.created_after = Some(range.0);
        memory_filter.created_before = Some(range.1);
    }
    if let Some(tags) = &filter.tags {
        let copy = clone_strings(tags);
        memory_filter.tags = Some(copy);
    }
    if let Some(query) = &filter.content_query {
        memory_filter.content = Some(query.clone());
    }
    Ok(memory_filter)
}

/// A message filter's time range carries over to the memory filter: its
/// start becomes the earliest creation time and its end the latest.
pub proof fn lemma_time_range_carries_over(f: MessageFilter, m: MemoryFilter, start: Timestamp, end: Timestamp)
    requires
        converted_filter(f, m),
        f.time_range == Some((start, end)),
    ensures
        m.created_after == Some(start),
        m.created_before == Some(end),
{
}

/// A message filter that sets only a time range converts to a memory filter
/// that admits exactly the memories created from its start to its end, both
/// included.
pub proof fn lemma_time_range_admits_within(
    f: MessageFilter,
    m: MemoryFilter,
    start: Timestamp,
    end: Timestamp,
    mem: MemoryView,
)
    requires
        converted_filter(f, m),
        f.time_range == Some((start, end)),
        f.topics is None,
        f.topic_patterns is None,
        f.tags is None,
        f.senders is None,
        f.content_query is None,
    ensures
        memory_filter_admits(mem, m) <==> {
            &&& (start.secs < mem.created_at.secs || (start.secs == mem.created_at.secs && start.nanos
                <= mem.created_at.nanos))
            &&& (mem.created_at.secs < end.secs || (mem.created_at.secs == end.secs && mem.created_at.nanos
                <= end.nanos))
        },
{
}

/// A copy of a list of strings.
pub fn clone_strings(v: &Vec<String>) -> (r: Vec<String>)
    ensures
        string_views(r@) == string_views(v@),
{
    let mut out: Vec<String> = Vec::new();
    let mut i: usize = 0;
    while i < v.len()
        invariant
            i <= v.len(),
            out@.len() == i,
            forall|j: int| 0 <= j < i ==> #[trigger] out@[j]@ == v@[j]@,
        decreases v.len() - i,
    {
        out.push(v[i].clone());
        i += 1;
    }
    assert(string_views(out@) =~= string_views(v@));
    out
}

} // verus!

//! Memory types and priorities.

use vstd::prelude::*;
use crate::text::{chars_of, str_eq, subvec, vec_has_prefix, string_from_chars, to_lowercase,
    has_prefix, lowercase_chars, is_ascii_non_upper, opt_view};
use crate::json::{JsonValue, JsonView, obj_insert, insert_entry, entries_view, copy_entries, field, obj_get,
    lemma_obj_insert_get, lemma_obj_insert_other};
use crate::messaging::filters::string_views;
use crate::time::{Timestamp, F32Bits, now, new_uuid, uuid_shaped};

verus! {

broadcast use vstd::string::group_string_axioms;

/// Memory priority levels, ordered from least to most important.
#[derive(Debug, Clone, Copy, PartialEq, Eq, PartialOrd, Ord, Hash, Structural)]
pub enum MemoryPriority {
    /// Low importance memory
    Low,
    /// Normal importance memory
    Normal,
    /// High importance memory
    High,
    /// Critical importance memory
    Critical,
}

impl Default for MemoryPriority {
    fn default() -> (p: Self)
        ensures
            p == MemoryPriority::Normal,
    {
        MemoryPriority::Normal
    }
}

/// Types of memories.
#[derive(Debug, Clone, PartialEq, Eq, Hash)]
pub enum MemoryType {
    /// Conversation or dialogue memory
    Conversation,
    /// Factual knowledge memory
    Fact,
    /// Procedural/skill memory
    Procedural,
    /// Episodic/experience memory
    Episodic,
    /// Identity/self-concept memory
    Identity,
    /// World/environment memory
    World,
    /// Action/behavior memory
    Action,
    /// Event memory
    Event,
    /// Wisdom/insight memory
    Wisdom,
    /// Custom memory type
    Custom(String),
}

/// A memory type with its custom name as a character sequence.
pub enum MemoryTypeView {
    Conversation,
    Fact,
    Procedural,
    Episodic,
    Identity,
    World,
    Action,
    Event,
    Wisdom,
    Custom(Seq<char>),
}

impl View for MemoryType {
    type V = MemoryTypeView;

    open spec fn view(&self) -> MemoryTypeView {
        match self {
            MemoryType::Conversation => MemoryTypeView::Conversation,
            MemoryType::Fact => MemoryTypeView::Fact,
            MemoryType::Procedural => MemoryTypeView::Procedural,
            MemoryType::Episodic => MemoryTypeView::Episodic,
            MemoryType::Identity => MemoryTypeView::Identity,
            MemoryType::World => MemoryTypeView::World,
            MemoryType::Action => MemoryTypeView::Action,
            MemoryType::Event => MemoryTypeView::Event,
            MemoryType::Wisdom => MemoryTypeView::Wisdom,
            MemoryType::Custom(s) => MemoryTypeView::Custom(s@),
        }
    }
}

/// The text form of a memory type: its lowercase name, or `custom:<name>`.
pub open spec fn memory_type_text(t: MemoryTypeView) -> Seq<char> {
    match t {
        MemoryTypeView::Conversation => "conversation"@,
        MemoryTypeView::Fact => "fact"@,
        MemoryTypeView::Procedural => "procedural"@,
        MemoryTypeView::Episodic => "episodic"@,
        MemoryTypeView::Identity => "identity"@,
        MemoryTypeView::World => "world"@,
        MemoryTypeView::Action => "action"@,
        MemoryTypeView::Event => "event"@,
        MemoryTypeView::Wisdom => "wisdom"@,
        MemoryTypeView::Custom(s) => "custom:"@ + s,
    }
}

/// `s` without a leading `custom:`, if it has one.
pub open spec fn strip_custom(s: Seq<char>) -> Seq<char> {
    if has_prefix(s, "custom:"@) {
        s.skip(7)
    } else {
        s
    }
}

/// The memory type named by `s`, compared case-insensitively through its
/// lowercase form `lower`; an unknown name is a custom type.
pub open spec fn memory_type_named(lower: Seq<char>, s: Seq<char>) -> MemoryTypeView {
    if lower == "conversation"@ {
        MemoryTypeView::Conversation
    } else if lower == "fact"@ {
        MemoryTypeView::Fact
    } else if lower == "procedural"@ {
        MemoryTypeView::Procedural
    } else if lower == "episodic"@ {
        MemoryTypeView::Episodic
    } else if lower == "identity"@ {
        MemoryTypeView::Identity
    } else if lower == "world"@ {
        MemoryTypeView::World
    } else if lower == "action"@ {
        MemoryTypeView::Action
    } else if lower == "event"@ {
        MemoryTypeView::Event
    } else if lower == "wisdom"@ {
        MemoryTypeView::Wisdom
    } else {
        MemoryTypeView::Custom(strip_custom(s))
    }
}

/// The memory type named by `s` exactly (case-sensitive, without `wisdom`); an
/// unknown name is a custom type.
pub open spec fn memory_type_parsed(s: Seq<char>) -> MemoryTypeView {
    if s == "conversation"@ {
        MemoryTypeView::Conversation
    } else if s == "fact"@ {
        MemoryTypeView::Fact
    } else if s == "procedural"@ {
        MemoryTypeView::Procedural
    } else if s == "episodic"@ {
        MemoryTypeView::Episodic
    } else if s == "identity"@ {
        MemoryTypeView::Identity
    } else if s == "world"@ {
        MemoryTypeView::World
    } else if s == "action"@ {
        MemoryTypeView::Action
    } else if s == "event"@ {
        MemoryTypeView::Event
    } else {
        MemoryTypeView::Custom(strip_custom(s))
    }
}

/// The priority named by `s`; any unknown name is `Normal`.
pub open spec fn priority_parsed(s: Seq<char>) -> MemoryPriority {
    if s == "low"@ {
        MemoryPriority::Low
    } else if s == "normal"@ {
        MemoryPriority::Normal
    } else if s == "high"@ {
        MemoryPriority::High
    } else if s == "critical"@ {
        MemoryPriority::Critical
    } else {
        MemoryPriority::Normal
    }
}

/// The characters of the memory type names.
proof fn lemma_type_names()
    ensures
        "conversation"@ =~= seq!['c', 'o', 'n', 'v', 'e', 'r', 's', 'a', 't', 'i', 'o', 'n'],
        "fact"@ =~= seq!['f', 'a', 'c', 't'],
        "procedural"@ =~= seq!['p', 'r', 'o', 'c', 'e', 'd', 'u', 'r', 'a', 'l'],
        "episodic"@ =~= seq!['e', 'p', 'i', 's', 'o', 'd', 'i', 'c'],
        "identity"@ =~= seq!['i', 'd', 'e', 'n', 't', 'i', 't', 'y'],
        "world"@ =~= seq!['w', 'o', 'r', 'l', 'd'],
        "action"@ =~= seq!['a', 'c', 't', 'i', 'o', 'n'],
        "event"@ =~= seq!['e', 'v', 'e', 'n', 't'],
        "wisdom"@ =~= seq!['w', 'i', 's', 'd', 'o', 'm'],
        "custom:"@ =~= seq!['c', 'u', 's', 't', 'o', 'm', ':'],
{
    reveal_strlit("conversation");
    reveal_strlit("fact");
    reveal_strlit("procedural");
    reveal_strlit("episodic");
    reveal_strlit("identity");
    reveal_strlit("world");
    reveal_strlit("action");
    reveal_strlit("event");
    reveal_strlit("wisdom");
    reveal_strlit("custom:");
}

/// `s` with a leading `custom:` removed, if it has one.
fn strip_custom_prefix(s: &str) -> (r: String)
    ensures
        r@ == strip_custom(s@),
{
    let chars = chars_of(s);
    let prefix = chars_of("custom:");
    proof {
        reveal_strlit("custom:");
    }
    if vec_has_prefix(&chars, &prefix) {
        let rest = subvec(&chars, 7, chars.len());
        assert(rest@ == s@.skip(7));
        string_from_chars(rest.as_slice())
    } else {
        String::from_str(s)
    }
}

impl Default for MemoryType {
    fn default() -> (t: Self)
        ensures
            t@ == MemoryTypeView::Fact,
    {
        MemoryType::Fact
    }
}

impl MemoryType {
    /// The text form of this memory type (`fact`, `custom:<name>`, ...).
    pub fn to_string(&self) -> (r: String)
        ensures
            r@ == memory_type_text(self@),
    {
        match self {
            MemoryType::Conversation => String::from_str("conversation"),
            MemoryType::Fact => String::from_str("fact"),
            MemoryType::Procedural => String::from_str("procedural"),
            MemoryType::Episodic => String::from_str("episodic"),
            MemoryType::Identity => String::from_str("identity"),
            MemoryType::World => String::from_str("world"),
            MemoryType::Action => String::from_str("action"),
            MemoryType::Event => String::from_str("event"),
            MemoryType::Wisdom => String::from_str("wisdom"),
            MemoryType::Custom(s) => String::from_str("custom:").concat(s.as_str()),
        }
    }

    /// Convert a string to a MemoryType. Known names are matched
    /// case-insensitively; `custom:<name>` and any other text give a custom type.
    /// Reading back the text form of any memory type gives that type.
    pub fn from_str(s: &str) -> (t: Self)
        ensures
            t@ == memory_type_named(lowercase_chars(s@), s@),
            forall|u: MemoryTypeView| s@ == memory_type_text(u) ==> t@ == u,
    {
        let lower = to_lowercase(s);
        let l = lower.as_str();
        proof {
            lemma_type_names();
            assert forall|u: MemoryTypeView| s@ == memory_type_text(u) implies memory_type_named(
                lowercase_chars(s@),
                s@,
            ) == u by {
                lemma_type_names();
                match u {
                    MemoryTypeView::Custom(c) => {
                        assert(s@[6] == ':');
                        assert(s@.contains(':'));
                        assert(lower@.contains(':'));
                        let names = seq![
                            "conversation"@, "fact"@, "procedural"@, "episodic"@, "identity"@,
                            "world"@, "action"@, "event"@, "wisdom"@
                        ];
                        assert forall|k: int| 0 <= k < names.len() implies !(#[trigger] names[k]).contains(':') by {
                            if names[k].contains(':') {
                                let j = choose|j: int| 0 <= j < names[k].len() && names[k][j] == ':';
                                assert(names[k][j] != ':');
                            }
                        }
                        assert(names[0] != lower@);
                        assert(names[1] != lower@);
                        assert(names[2] != lower@);
                        assert(names[3] != lower@);
                        assert(names[4] != lower@);
                        assert(names[5] != lower@);
                        assert(names[6] != lower@);
                        assert(names[7] != lower@);
                        assert(names[8] != lower@);
                        assert(s@.subrange(0, 7) =~= "custom:"@);
                        assert(s@.skip(7) =~= c);
                    },
                    _ => {
                        assert(forall|i: int| 0 <= i < s@.len() ==> is_ascii_non_upper(#[trigger] s@[i]));
                        assert(lower@ == s@);
                    },
                }
            }
        }
        if str_eq(l, "conversation") {
            MemoryType::Conversation
        } else if str_eq(l, "fact") {
            MemoryType::Fact
        } else if str_eq(l, "procedural") {
            MemoryType::Procedural
        } else if str_eq(l, "episodic") {
            MemoryType::Episodic
        } else if str_eq(l, "identity") {
            MemoryType::Identity
        } else if str_eq(l, "world") {
            MemoryType::World
        } else if str_eq(l, "action") {
            MemoryType::Action
        } else if str_eq(l, "event") {
            MemoryType::Event
        } else if str_eq(l, "wisdom") {
            MemoryType::Wisdom
        } else {
            MemoryType::Custom(strip_custom_prefix(s))
        }
    }
}

/// Parse memory type string into MemoryType enum (exact names; `wisdom` is not
/// among them and parses as a custom type).
pub fn parse_memory_type(type_str: &str) -> (t: MemoryType)
    ensures
        t@ == memory_type_parsed(type_str@),
{
    if str_eq(type_str, "conversation") {
        MemoryType::Conversation
    } else if str_eq(type_str, "fact") {
        MemoryType::Fact
    } else if str_eq(type_str, "procedural") {
        MemoryType::Procedural
    } else if str_eq(type_str, "episodic") {
        MemoryType::Episodic
    } else if str_eq(type_str, "identity") {
        MemoryType::Identity
    } else if str_eq(type_str, "world") {
        MemoryType::World
    } else if str_eq(type_str, "action") {
        MemoryType::Action
    } else if str_eq(type_str, "event") {
        MemoryType::Event
    } else {
        MemoryType::Custom(strip_custom_prefix(type_str))
    }
}

/// Parse memory priority string into MemoryPriority enum; unknown text gives `Normal`.
pub fn parse_memory_priority(priority_str: &str) -> (p: MemoryPriority)
    ensures
        p == priority_parsed(priority_str@),
{
    if str_eq(priority_str, "low") {
        MemoryPriority::Low
    } else if str_eq(priority_str, "normal") {
        MemoryPriority::Normal
    } else if str_eq(priority_str, "high") {
        MemoryPriority::High
    } else if str_eq(priority_str, "critical") {
        MemoryPriority::Critical
    } else {
        MemoryPriority::Normal
    }
}

/// Parsing the text form of any memory type other than `Wisdom` with
/// `parse_memory_type` gives that type back.
pub proof fn lemma_parse_memory_type_roundtrip(t: MemoryTypeView)
    requires
        t != MemoryTypeView::Wisdom,
    ensures
        memory_type_parsed(memory_type_text(t)) == t,
{
    lemma_type_names();
    match t {
        MemoryTypeView::Custom(c) => {
            let s = memory_type_text(t);
            assert(s[6] == ':');
            assert(s[0] == 'c');
            assert(s != "conversation"@ && s != "fact"@ && s != "procedural"@ && s != "episodic"@);
            assert(s != "identity"@ && s != "world"@ && s != "action"@ && s != "event"@) by {
                assert(s[1] == 'u');
            }
            assert(s.subrange(0, 7) =~= "custom:"@);
            assert(s.skip(7) =~= c);
        },
        _ => {},
    }
}

/// The lowercase name of a priority.
pub open spec fn priority_name(p: MemoryPriority) -> Seq<char> {
    match p {
        MemoryPriority::Low => "low"@,
        MemoryPriority::Normal => "normal"@,
        MemoryPriority::High => "high"@,
        MemoryPriority::Critical => "critical"@,
    }
}

/// Every priority is read back from its lowercase name.
pub proof fn lemma_priority_names(p: MemoryPriority)
    ensures
        priority_parsed(priority_name(p)) == p,
{
    reveal_strlit("low");
    reveal_strlit("normal");
    reveal_strlit("high");
    reveal_strlit("critical");
    assert("low"@ =~= seq!['l', 'o', 'w']);
    assert("normal"@ =~= seq!['n', 'o', 'r', 'm', 'a', 'l']);
    assert("high"@ =~= seq!['h', 'i', 'g', 'h']);
    assert("critical"@ =~= seq!['c', 'r', 'i', 't', 'i', 'c', 'a', 'l']);
}

impl MemoryType {
    /// A copy of this memory type.
    pub fn copy(&self) -> (r: Self)
        ensures
            r@ == self@,
    {
        match self {
            MemoryType::Conversation => MemoryType::Conversation,
            MemoryType::Fact => MemoryType::Fact,
            MemoryType::Procedural => MemoryType::Procedural,
            MemoryType::Episodic => MemoryType::Episodic,
            MemoryType::Identity => MemoryType::Identity,
            MemoryType::World => MemoryType::World,
            MemoryType::Action => MemoryType::Action,
            MemoryType::Event => MemoryType::Event,
            MemoryType::Wisdom => MemoryType::Wisdom,
            MemoryType::Custom(s) => MemoryType::Custom(s.clone()),
        }
    }

    /// Whether two memory types are the same type (custom types by name).
    pub fn same_as(&self, other: &MemoryType) -> (r: bool)
        ensures
            r == (self@ == other@),
    {
        match (self, other) {
            (MemoryType::Conversation, MemoryType::Conversation) => true,
            (MemoryType::Fact, MemoryType::Fact) => true,
            (MemoryType::Procedural, MemoryType::Procedural) => true,
            (MemoryType::Episodic, MemoryType::Episodic) => true,
            (MemoryType::Identity, MemoryType::Identity) => true,
            (MemoryType::World, MemoryType::World) => true,
            (MemoryType::Action, MemoryType::Action) => true,
            (MemoryType::Event, MemoryType::Event) => true,
            (MemoryType::Wisdom, MemoryType::Wisdom) => true,
            (MemoryType::Custom(a), MemoryType::Custom(b)) => str_eq(a.as_str(), b.as_str()),
            _ => false,
        }
    }
}

/// Core memory structure for all memory storage.
#[derive(Debug)]
pub struct Memory {
    /// Unique identifier for the memory
    pub id: String,
    /// The actual content of the memory
    pub content: String,
    /// Type of memory
    pub memory_type: MemoryType,
    /// When the memory was created
    pub created_at: Timestamp,
    /// When the memory was last accessed
    pub last_accessed: Option<Timestamp>,
    /// How many times the memory has been accessed
    pub access_count: u32,
    /// Priority/importance of the memory
    pub priority: MemoryPriority,
    /// Tags associated with the memory for categorization
    pub tags: Vec<String>,
    /// Source of the memory (e.g., user, agent, system)
    pub source: String,
    /// When the memory expires (if applicable)
    pub expires_at: Option<Timestamp>,
    /// Additional properties as arbitrary JSON
    pub properties: JsonValue,
    /// References to related memories by ID
    pub related_memories: Vec<String>,
    /// Vector embedding if available
    pub embedding: Option<Vec<F32Bits>>,
}

/// A memory with its texts and values as views.
pub struct MemoryView {
    pub id: Seq<char>,
    pub content: Seq<char>,
    pub memory_type: MemoryTypeView,
    pub created_at: Timestamp,
    pub last_accessed: Option<Timestamp>,
    pub access_count: u32,
    pub priority: MemoryPriority,
    pub tags: Seq<Seq<char>>,
    pub source: Seq<char>,
    pub expires_at: Option<Timestamp>,
    pub properties: JsonView,
    pub related_memories: Seq<Seq<char>>,
    pub embedding: Option<Seq<F32Bits>>,
}

/// The view of an optional embedding.
pub open spec fn embedding_view(e: Option<Vec<F32Bits>>) -> Option<Seq<F32Bits>> {
    match e {
        Some(v) => Some(v@),
        None => None,
    }
}

impl View for Memory {
    type V = MemoryView;

    open spec fn view(&self) -> MemoryView {
        MemoryView {
            id: self.id@,
            content: self.content@,
            memory_type: self.memory_type@,
            created_at: self.created_at,
            last_accessed: self.last_accessed,
            access_count: self.access_count,
            priority: self.priority,
            tags: string_views(self.tags@),
            source: self.source@,
            expires_at: self.expires_at,
            properties: self.properties@,
            related_memories: string_views(self.related_memories@),
            embedding: embedding_view(self.embedding),
        }
    }
}

/// Whether `m` is the memory `Memory::new` makes (its creation time aside).
pub open spec fn is_new_memory(m: MemoryView, id: Seq<char>, content: Seq<char>, memory_type: MemoryTypeView) -> bool {
    &&& m.id == id
    &&& m.content == content
    &&& m.memory_type == memory_type
    &&& m.last_accessed is None
    &&& m.access_count == 0
    &&& m.priority == MemoryPriority::Normal
    &&& m.tags.len() == 0
    &&& m.source == "unknown"@
    &&& m.expires_at is None
    &&& m.properties == JsonView::Object(Seq::empty())
    &&& m.related_memories.len() == 0
    &&& m.embedding is None
}

/// `s` with `x` added at the end unless it holds `x` already.
pub open spec fn push_unique(s: Seq<Seq<char>>, x: Seq<char>) -> Seq<Seq<char>> {
    if s.contains(x) {
        s
    } else {
        s.push(x)
    }
}

/// The properties after setting `key` to `value`: an object gets the entry,
/// anything else is replaced by an object holding only it.
pub open spec fn property_set(props: JsonView, key: Seq<char>, value: JsonView) -> JsonView {
    match props {
        JsonView::Object(entries) => JsonView::Object(obj_insert(entries, key, value)),
        _ => JsonView::Object(seq![(key, value)]),
    }
}

/// Whether `s` is among the strings of `v`.
fn strings_contain(v: &Vec<String>, s: &str) -> (r: bool)
    ensures
        r == string_views(v@).contains(s@),
{
    let mut i: usize = 0;
    while i < v.len()
        invariant
            i <= v.len(),
            forall|j: int| 0 <= j < i ==> v@[j]@ != s@,
        decreases v.len() - i,
    {
        if str_eq(v[i].as_str(), s) {
            assert(string_views(v@)[i as int] == s@);
            return true;
        }
        i += 1;
    }
    proof {
        if string_views(v@).contains(s@) {
            let j = choose|j: int| 0 <= j < string_views(v@).len() && string_views(v@)[j] == s@;
            assert(v@[j]@ == s@);
        }
    }
    false
}

/// A copy of a list of strings.
fn copy_strings(v: &Vec<String>) -> (r: Vec<String>)
    ensures
        string_views(r@) == string_views(v@),
{
    let mut out: Vec<String> = Vec::new();
    let mut i: usize = 0;
    while i < v.len()
        invariant
            i <= v.len(),
            out@.len() == i,
            forall|j: int| 0 <= j < i ==> (#[trigger] out@[j])@ == v@[j]@,
        decreases v.len() - i,
    {
        out.push(v[i].clone());
        i += 1;
    }
    assert(string_views(out@) =~= string_views(v@));
    out
}

/// A copy of an optional embedding.
fn copy_embedding(e: &Option<Vec<F32Bits>>) -> (r: Option<Vec<F32Bits>>)
    ensures
        embedding_view(r) == embedding_view(*e),
{
    match e {
        Some(v) => {
            let mut out: Vec<F32Bits> = Vec::new();
            let mut i: usize = 0;
            while i < v.len()
                invariant
                    i <= v.len(),
                    out@ == v@.take(i as int),
                decreases v.len() - i,
            {
                out.push(v[i]);
                assert(out@ =~= v@.take(i + 1));
                i += 1;
            }
            assert(v@.take(v.len() as int) =~= v@);
            Some(out)
        },
        None => None,
    }
}

/// Add `s` to `v` unless it is there already.
fn push_unique_string(v: &mut Vec<String>, s: &str)
    ensures
        string_views(final(v)@) == push_unique(string_views(old(v)@), s@),
{
    if !strings_contain(v, s) {
        let ghost before = v@;
        v.push(String::from_str(s));
        assert(string_views(v@) =~= string_views(before).push(s@));
    }
}

impl Memory {
    /// Create a new memory with minimal information: normal priority, source
    /// `unknown`, empty properties, no tags, stamped with the current time.
    pub fn new(id: String, content: String, memory_type: MemoryType) -> (m: Self)
        ensures
            is_new_memory(m@, id@, content@, memory_type@),
    {
        let m = Memory {
            id,
            content,
            memory_type,
            created_at: now(),
            last_accessed: None,
            access_count: 0,
            priority: MemoryPriority::Normal,
            tags: Vec::new(),
            source: String::from_str("unknown"),
            expires_at: None,
            properties: JsonValue::Object(Vec::new()),
            related_memories: Vec::new(),
            embedding: None,
        };
        assert(m@.properties->Object_0 =~= Seq::<(Seq<char>, JsonView)>::empty());
        assert(m@.tags.len() == 0 && m@.related_memories.len() == 0);
        m
    }

    /// Create a builder for more complex memory creation.
    pub fn builder(id: String, content: String) -> (b: MemoryBuilder)
        ensures
            is_new_memory(b@, id@, content@, MemoryTypeView::Fact),
    {
        MemoryBuilder::new(id, content)
    }

    /// Record an access to this memory: stamp the time and count it.
    pub fn record_access(&mut self)
        requires
            old(self).access_count < u32::MAX,
        ensures
            final(self)@ == (MemoryView {
                last_accessed: final(self)@.last_accessed,
                access_count: (old(self).access_count + 1) as u32,
                ..old(self)@
            }),
            final(self)@.last_accessed is Some,
    {
        self.last_accessed = Some(now());
        self.access_count = self.access_count + 1;
    }

    /// Add a tag to this memory unless it has it already.
    pub fn add_tag(&mut self, tag: &str)
        ensures
            final(self)@ == (MemoryView { tags: push_unique(old(self)@.tags, tag@), ..old(self)@ }),
    {
        push_unique_string(&mut self.tags, tag);
    }

    /// Add a related memory reference unless it is there already.
    pub fn add_related_memory(&mut self, memory_id: &str)
        ensures
            final(self)@ == (MemoryView {
                related_memories: push_unique(old(self)@.related_memories, memory_id@),
                ..old(self)@
            }),
    {
        push_unique_string(&mut self.related_memories, memory_id);
    }

    /// Set a property value.
    pub fn set_property(&mut self, key: &str, value: JsonValue)
        ensures
            final(self)@ == (MemoryView { properties: property_set(old(self)@.properties, key@, value@), ..old(self)@ }),
    {
        let ghost vv = value@;
        let ghost before = self@.properties;
        let mut props = JsonValue::Null;
        std::mem::swap(&mut props, &mut self.properties);
        match props {
            JsonValue::Object(entries) => {
                let mut entries = entries;
                assert(before->Object_0 =~= entries_view(entries@));
                insert_entry(&mut entries, key, value);
                self.properties = JsonValue::Object(entries);
                assert(self@.properties->Object_0 =~= entries_view(entries@));
            },
            _ => {
                let mut entries: Vec<(String, JsonValue)> = Vec::new();
                entries.push((String::from_str(key), value));
                self.properties = JsonValue::Object(entries);
                assert(self@.properties->Object_0 =~= seq![(key@, vv)]) by {
                    assert(self@.properties->Object_0[0] == (entries@[0].0@, entries@[0].1@));
                }
            },
        }
    }

    /// Set the embedding vector for this memory.
    pub fn with_embedding(self, embedding: Vec<F32Bits>) -> (m: Self)
        ensures
            m@ == (MemoryView { embedding: Some(embedding@), ..self@ }),
    {
        let mut m = self;
        m.embedding = Some(embedding);
        m
    }

    /// Check if this memory has an embedding.
    pub fn has_embedding(&self) -> (r: bool)
        ensures
            r == self.embedding is Some,
    {
        self.embedding.is_some()
    }

    /// A copy of this memory.
    pub fn copy(&self) -> (m: Self)
        ensures
            m@ == self@,
    {
        Memory {
            id: self.id.clone(),
            content: self.content.clone(),
            memory_type: self.memory_type.copy(),
            created_at: self.created_at,
            last_accessed: self.last_accessed,
            access_count: self.access_count,
            priority: self.priority,
            tags: copy_strings(&self.tags),
            source: self.source.clone(),
            expires_at: self.expires_at,
            properties: self.properties.deep_copy(),
            related_memories: copy_strings(&self.related_memories),
            embedding: copy_embedding(&self.embedding),
        }
    }
}

impl Clone for Memory {
    fn clone(&self) -> (m: Self)
        ensures
            m@ == self@,
    {
        self.copy()
    }
}

/// Adding a tag (or related memory) twice is the same as adding it once, and
/// afterwards the memory has it.
pub proof fn lemma_push_unique_idempotent(s: Seq<Seq<char>>, x: Seq<char>)
    ensures
        push_unique(push_unique(s, x), x) == push_unique(s, x),
        push_unique(s, x).contains(x),
{
    if !s.contains(x) {
        assert(s.push(x)[s.len() as int] == x);
    }
}

/// Reading back a property: after `set_property(key, value)` the properties
/// hold `value` under `key`, and every other property is as it was (where the
/// properties were an object).
pub proof fn lemma_set_property_get(props: JsonView, key: Seq<char>, value: JsonView, other: Seq<char>)
    ensures
        field(property_set(props, key, value), key) == Some(value),
        props is Object && other != key ==> field(property_set(props, key, value), other) == field(props, other),
{
    match props {
        JsonView::Object(entries) => {
            lemma_obj_insert_get(entries, key, value);
            if other != key {
                lemma_obj_insert_other(entries, key, value, other);
            }
        },
        _ => {
            let s = seq![(key, value)];
            assert(s[0].0 == key);
        },
    }
}

/// The properties object built from `(key, value)` pairs set in turn, a later
/// pair replacing an earlier one with the same key.
pub open spec fn properties_from(pairs: Seq<(&str, JsonValue)>) -> Seq<(Seq<char>, JsonView)>
    decreases pairs.len(),
{
    if pairs.len() == 0 {
        Seq::empty()
    } else {
        obj_insert(properties_from(pairs.drop_last()), pairs.last().0@, pairs.last().1@)
    }
}

/// Builder for creating Memory instances.
pub struct MemoryBuilder {
    memory: Memory,
}

impl View for MemoryBuilder {
    type V = MemoryView;

    /// The memory under construction.
    closed spec fn view(&self) -> MemoryView {
        self.memory@
    }
}

impl MemoryBuilder {
    /// Create a new memory builder for a fact with the given ID.
    pub fn new(id: String, content: String) -> (b: Self)
        ensures
            is_new_memory(b@, id@, content@, MemoryTypeView::Fact),
    {
        MemoryBuilder { memory: Memory::new(id, content, MemoryType::Fact) }
    }

    /// Create a new memory builder with a freshly generated UUID; `None` when
    /// the operating system's random source fails.
    pub fn new_with_content(content: &str) -> (r: Option<Self>)
        ensures
            r matches Some(b) ==> uuid_shaped(b@.id) && is_new_memory(b@, b@.id, content@, MemoryTypeView::Fact),
    {
        match new_uuid() {
            Some(id) => Some(Self::new(id, String::from_str(content))),
            None => None,
        }
    }

    /// Create a fact memory.
    pub fn fact(content: &str) -> (r: Option<Self>)
        ensures
            r matches Some(b) ==> {
                &&& uuid_shaped(b@.id)
                &&& is_new_memory(b@, b@.id, content@, MemoryTypeView::Fact)
            },
    {
        match Self::new_with_content(content) {
            Some(b) => Some(b.memory_type(MemoryType::Fact)),
            None => None,
        }
    }

    /// Create a conversation memory.
    pub fn conversation(content: &str) -> (r: Option<Self>)
        ensures
            r matches Some(b) ==> {
                &&& uuid_shaped(b@.id)
                &&& is_new_memory(b@, b@.id, content@, MemoryTypeView::Conversation)
            },
    {
        match Self::new_with_content(content) {
            Some(b) => Some(b.memory_type(MemoryType::Conversation)),
            None => None,
        }
    }

    /// Create an episodic memory.
    pub fn episodic(content: &str) -> (r: Option<Self>)
        ensures
            r matches Some(b) ==> {
                &&& uuid_shaped(b@.id)
                &&& is_new_memory(b@, b@.id, content@, MemoryTypeView::Episodic)
            },
    {
        match Self::new_with_content(content) {
            Some(b) => Some(b.memory_type(MemoryType::Episodic)),
            None => None,
        }
    }

    /// Create a procedural memory.
    pub fn procedural(content: &str) -> (r: Option<Self>)
        ensures
            r matches Some(b) ==> {
                &&& uuid_shaped(b@.id)
                &&& is_new_memory(b@, b@.id, content@, MemoryTypeView::Procedural)
            },
    {
        match Self::new_with_content(content) {
            Some(b) => Some(b.memory_type(MemoryType::Procedural)),
            None => None,
        }
    }

    /// Create an identity memory, with high priority.
    pub fn identity(content: &str) -> (r: Option<Self>)
        ensures
            r matches Some(b) ==> {
                &&& uuid_shaped(b@.id)
                &&& is_new_memory(
                    MemoryView { priority: MemoryPriority::Normal, ..b@ },
                    b@.id,
                    content@,
                    MemoryTypeView::Identity,
                )
                &&& b@.priority == MemoryPriority::High
            },
    {
        match Self::new_with_content(content) {
            Some(b) => Some(b.memory_type(MemoryType::Identity).priority(MemoryPriority::High)),
            None => None,
        }
    }

    /// Create a world knowledge memory.
    pub fn world(content: &str) -> (r: Option<Self>)
        ensures
            r matches Some(b) ==> {
                &&& uuid_shaped(b@.id)
                &&& is_new_memory(b@, b@.id, content@, MemoryTypeView::World)
            },
    {
        match Self::new_with_content(content) {
            Some(b) => Some(b.memory_type(MemoryType::World)),
            None => None,
        }
    }

    /// Create an action memory.
    pub fn action(content: &str) -> (r: Option<Self>)
        ensures
            r matches Some(b) ==> {
                &&& uuid_shaped(b@.id)
                &&& is_new_memory(b@, b@.id, content@, MemoryTypeView::Action)
            },
    {
        match Self::new_with_content(content) {
            Some(b) => Some(b.memory_type(MemoryType::Action)),
            None => None,
        }
    }

    /// Create an event memory.
    pub fn event(content: &str) -> (r: Option<Self>)
        ensures
            r matches Some(b) ==> {
                &&& uuid_shaped(b@.id)
                &&& is_new_memory(b@, b@.id, content@, MemoryTypeView::Event)
            },
    {
        match Self::new_with_content(content) {
            Some(b) => Some(b.memory_type(MemoryType::Event)),
            None => None,
        }
    }

    /// Set the memory type.
    pub fn memory_type(self, memory_type: MemoryType) -> (b: Self)
        ensures
            b@ == (MemoryView { memory_type: memory_type@, ..self@ }),
    {
        let mut b = self;
        b.memory.memory_type = memory_type;
        b
    }

    /// Set the memory priority.
    pub fn priority(self, priority: MemoryPriority) -> (b: Self)
        ensures
            b@ == (MemoryView { priority, ..self@ }),
    {
        let mut b = self;
        b.memory.priority = priority;
        b
    }

    /// Set memory priority to low.
    pub fn low_priority(self) -> (b: Self)
        ensures
            b@ == (MemoryView { priority: MemoryPriority::Low, ..self@ }),
    {
        self.priority(MemoryPriority::Low)
    }

    /// Set memory priority to normal.
    pub fn normal_priority(self) -> (b: Self)
        ensures
            b@ == (MemoryView { priority: MemoryPriority::Normal, ..self@ }),
    {
        self.priority(MemoryPriority::Normal)
    }

    /// Set memory priority to high.
    pub fn high_priority(self) -> (b: Self)
        ensures
            b@ == (MemoryView { priority: MemoryPriority::High, ..self@ }),
    {
        self.priority(MemoryPriority::High)
    }

    /// Set memory priority to critical.
    pub fn critical_priority(self) -> (b: Self)
        ensures
            b@ == (MemoryView { priority: MemoryPriority::Critical, ..self@ }),
    {
        self.priority(MemoryPriority::Critical)
    }

    /// Set the memory source.
    pub fn source(self, source: &str) -> (b: Self)
        ensures
            b@ == (MemoryView { source: source@, ..self@ }),
    {
        let mut b = self;
        b.memory.source = String::from_str(source);
        b
    }

    /// Replace the tags of the memory.
    pub fn tags(self, tags: Vec<&str>) -> (b: Self)
        ensures
            b@ == (MemoryView { tags: tags@.map_values(|t: &str| t@), ..self@ }),
    {
        let mut out: Vec<String> = Vec::new();
        let mut i: usize = 0;
        while i < tags.len()
            invariant
                i <= tags.len(),
                out@.len() == i,
                forall|j: int| 0 <= j < i ==> (#[trigger] out@[j])@ == tags@[j]@,
            decreases tags.len() - i,
        {
            out.push(String::from_str(tags[i]));
            i += 1;
        }
        assert(string_views(out@) =~= tags@.map_values(|t: &str| t@));
        let mut b = self;
        b.memory.tags = out;
        b
    }

    /// Add a single tag to the memory.
    pub fn tag(self, tag: &str) -> (b: Self)
        ensures
            b@ == (MemoryView { tags: self@.tags.push(tag@), ..self@ }),
    {
        let mut b = self;
        let ghost before = b.memory.tags@;
        b.memory.tags.push(String::from_str(tag));
        assert(string_views(b.memory.tags@) =~= string_views(before).push(tag@));
        b
    }

    /// Set the expiration time.
    pub fn expires_at(self, expires_at: Timestamp) -> (b: Self)
        ensures
            b@ == (MemoryView { expires_at: Some(expires_at), ..self@ }),
    {
        let mut b = self;
        b.memory.expires_at = Some(expires_at);
        b
    }

    /// Replace the properties with an object built from the given pairs.
    pub fn properties(self, properties: Vec<(&str, JsonValue)>) -> (b: Self)
        ensures
            b@ == (MemoryView { properties: JsonView::Object(properties_from(properties@)), ..self@ }),
    {
        let ghost pv = properties@;
        let mut entries: Vec<(String, JsonValue)> = Vec::new();
        let mut rest = properties;
        let n = rest.len();
        let mut i: usize = 0;
        while i < n
            invariant
                i <= n,
                n == pv.len(),
                rest@ == pv.skip(i as int),
                entries_view(entries@) == properties_from(pv.take(i as int)),
            decreases n - i,
        {
            let (k, v) = rest.remove(0);
            assert(pv.take(i + 1).drop_last() =~= pv.take(i as int));
            assert(pv.skip(i as int).drop_first() =~= pv.skip(i + 1));
            insert_entry(&mut entries, k, v);
            i += 1;
        }
        assert(pv.take(n as int) =~= pv);
        let mut b = self;
        b.memory.properties = JsonValue::Object(entries);
        assert(b@.properties->Object_0 =~= entries_view(entries@));
        b
    }

    /// Set a single property.
    pub fn property(self, key: &str, value: JsonValue) -> (b: Self)
        ensures
            b@ == (MemoryView { properties: property_set(self@.properties, key@, value@), ..self@ }),
    {
        let mut b = self;
        b.memory.set_property(key, value);
        b
    }

    /// Set the embedding vector.
    pub fn embedding(self, embedding: Vec<F32Bits>) -> (b: Self)
        ensures
            b@ == (MemoryView { embedding: Some(embedding@), ..self@ }),
    {
        let mut b = self;
        b.memory.embedding = Some(embedding);
        b
    }

    /// Build the final Memory instance.
    pub fn build(self) -> (m: Memory)
        ensures
            m@ == self@,
    {
        self.memory
    }
}

} // verus!

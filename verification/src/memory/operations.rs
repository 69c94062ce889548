//! Memory operations: the vector record kept beside a memory that carries an
//! embedding, what storing or updating a memory reports, and which entity
//! extractors, resolver and relationship creator a configuration sets up.

use vstd::prelude::*;
use crate::error::LocaiError;
use crate::json::{JsonValue, JsonView, obj_insert, insert_entry, entries_view};
use crate::memory::utils::{string_array};
use crate::messaging::filters::string_views;
use crate::models::memory::{Memory, MemoryView, memory_type_text};
use crate::text::{chars_of, subvec, string_from_chars};
use crate::time::{F32Bits, Timestamp};

verus! {

/// A vector record: an embedding stored for similarity search, with metadata
/// about the memory it belongs to.
#[derive(Debug)]
pub struct MemoryVector {
    /// Identifier of the vector record: `mem_` and the memory's identifier
    pub id: String,
    /// The embedding
    pub vector: Vec<F32Bits>,
    /// Its number of dimensions
    pub dimension: usize,
    /// What the record says of the memory
    pub metadata: JsonValue,
    /// Identifier of the memory
    pub source_id: Option<String>,
    /// When the record was created
    pub created_at: Timestamp,
}

/// The identifier of the vector record of a memory.
pub open spec fn vector_id_of(memory_id: Seq<char>) -> Seq<char> {
    "mem_"@ + memory_id
}

/// The first hundred characters of `s` (all of it, if shorter).
pub open spec fn preview(s: Seq<char>) -> Seq<char> {
    if s.len() <= 100 {
        s
    } else {
        s.take(100)
    }
}

/// The metadata of a memory's vector record: its type, the memory's identifier,
/// memory type, a preview of its content, its source and tags, keyed by name.
pub open spec fn vector_metadata(m: MemoryView) -> Seq<(Seq<char>, JsonView)> {
    let p = obj_insert(Seq::empty(), "type"@, JsonView::String("memory"@));
    let p = obj_insert(p, "memory_id"@, JsonView::String(m.id));
    let p = obj_insert(p, "memory_type"@, JsonView::String(memory_type_text(m.memory_type)));
    let p = obj_insert(p, "content_preview"@, JsonView::String(preview(m.content)));
    let p = obj_insert(p, "source"@, JsonView::String(m.source));
    obj_insert(p, "tags"@, string_array(m.tags))
}

/// The identifier of the vector record of a memory.
pub fn memory_vector_id(memory_id: &str) -> (r: String)
    ensures
        r@ == vector_id_of(memory_id@),
{
    String::from_str("mem_").concat(memory_id)
}

/// The first hundred characters of `s`.
fn content_preview(s: &str) -> (r: String)
    ensures
        r@ == preview(s@),
{
    let chars = chars_of(s);
    if chars.len() <= 100 {
        String::from_str(s)
    } else {
        let head = subvec(&chars, 0, 100);
        assert(head@ =~= s@.take(100));
        string_from_chars(head.as_slice())
    }
}

/// The vector record of a memory that carries an embedding (none for a
/// memory without one), created at `created_at`.
pub fn memory_vector(memory: &Memory, created_at: Timestamp) -> (r: Option<MemoryVector>)
    ensures
        memory.embedding is None <==> r is None,
        r matches Some(v) ==> {
            &&& v.id@ == vector_id_of(memory.id@)
            &&& Some(v.vector@) == memory@.embedding
            &&& v.dimension == v.vector@.len()
            &&& v.metadata@ == JsonView::Object(vector_metadata(memory@))
            &&& v.source_id matches Some(s) && s@ == memory.id@
            &&& v.created_at == created_at
        },
{
    let embedding = match &memory.embedding {
        Some(e) => e,
        None => {
            return None;
        },
    };
    let mut vector: Vec<F32Bits> = Vec::new();
    let mut i: usize = 0;
    while i < embedding.len()
        invariant
            i <= embedding.len(),
            vector@ == embedding@.take(i as int),
        decreases embedding.len() - i,
    {
        vector.push(embedding[i]);
        assert(vector@ =~= embedding@.take(i + 1));
        i += 1;
    }
    assert(vector@ =~= embedding@);
    let mut entries: Vec<(String, JsonValue)> = Vec::new();
    assert(entries_view(entries@) =~= Seq::<(Seq<char>, JsonView)>::empty());
    insert_entry(&mut entries, "type", JsonValue::String(String::from_str("memory")));
    insert_entry(&mut entries, "memory_id", JsonValue::String(memory.id.clone()));
    insert_entry(&mut entries, "memory_type", JsonValue::String(memory.memory_type.to_string()));
    insert_entry(&mut entries, "content_preview", JsonValue::String(content_preview(memory.content.as_str())));
    insert_entry(&mut entries, "source", JsonValue::String(memory.source.clone()));
    insert_entry(&mut entries, "tags", tags_value(&memory.tags));
    let metadata = JsonValue::Object(entries);
    assert(metadata@->Object_0 =~= entries_view(entries@));
    let dimension = vector.len();
    Some(
        MemoryVector {
            id: memory_vector_id(memory.id.as_str()),
            vector,
            dimension,
            metadata,
            source_id: Some(memory.id.clone()),
            created_at,
        },
    )
}

/// A JSON array of copies of the tags.
fn tags_value(tags: &Vec<String>) -> (r: JsonValue)
    ensures
        r@ == string_array(string_views(tags@)),
{
    let mut items: Vec<JsonValue> = Vec::new();
    let mut i: usize = 0;
    while i < tags.len()
        invariant
            i <= tags.len(),
            items@.len() == i,
            forall|j: int| 0 <= j < i ==> (#[trigger] items@[j])@ == JsonView::String(tags@[j]@),
        decreases tags.len() - i,
    {
        items.push(JsonValue::String(tags[i].clone()));
        i += 1;
    }
    let r = JsonValue::Array(items);
    assert(r@->Array_0 =~= string_array(string_views(tags@))->Array_0);
    r
}

/// What looking up a memory's existing vector record gave.
#[derive(Debug, Clone, Copy, PartialEq, Eq, Structural)]
pub enum VectorLookup {
    /// A record exists, created at this instant
    Found(Timestamp),
    /// No record exists
    Missing,
    /// The lookup failed
    Failed,
}

/// What to do with the vector record of a memory that was updated.
#[derive(Debug)]
pub enum VectorUpdate {
    /// Replace the existing record with this one
    Upsert(MemoryVector),
    /// Add this new record
    Add(MemoryVector),
    /// Delete the record with this identifier, if there is one
    Delete(String),
    /// Leave the records as they are
    Nothing,
}

/// The vector record change after a memory was updated: a memory with an
/// embedding replaces its existing record (keeping that record's creation
/// time) or, without one, adds a record created when the memory was; when the
/// lookup of the existing record failed nothing changes; a memory without an
/// embedding has its record deleted.
pub fn plan_vector_update(memory: &Memory, lookup: VectorLookup) -> (r: VectorUpdate)
    ensures
        memory.embedding is None ==> (r matches VectorUpdate::Delete(id) && id@ == vector_id_of(memory.id@)),
        memory.embedding is Some ==> match lookup {
            VectorLookup::Found(t) => r matches VectorUpdate::Upsert(v) && {
                &&& v.id@ == vector_id_of(memory.id@)
                &&& Some(v.vector@) == memory@.embedding
                &&& v.dimension == v.vector@.len()
                &&& v.metadata@ == JsonView::Object(vector_metadata(memory@))
                &&& v.source_id matches Some(s) && s@ == memory.id@
                &&& v.created_at == t
            },
            VectorLookup::Missing => r matches VectorUpdate::Add(v) && {
                &&& v.id@ == vector_id_of(memory.id@)
                &&& Some(v.vector@) == memory@.embedding
                &&& v.dimension == v.vector@.len()
                &&& v.metadata@ == JsonView::Object(vector_metadata(memory@))
                &&& v.source_id matches Some(s) && s@ == memory.id@
                &&& v.created_at == memory.created_at
            },
            VectorLookup::Failed => r is Nothing,
        },
{
    if memory.embedding.is_none() {
        return VectorUpdate::Delete(memory_vector_id(memory.id.as_str()));
    }
    match lookup {
        VectorLookup::Found(t) => match memory_vector(memory, t) {
            Some(v) => VectorUpdate::Upsert(v),
            None => VectorUpdate::Nothing,
        },
        VectorLookup::Missing => match memory_vector(memory, memory.created_at) {
            Some(v) => VectorUpdate::Add(v),
            None => VectorUpdate::Nothing,
        },
        VectorLookup::Failed => VectorUpdate::Nothing,
    }
}

/// The outcome of storing a memory, from what storage answered the create:
/// the stored memory's identifier, or a storage error reading
/// `Failed to store memory: ` and storage's message. What follows the create
/// (its vector record, entity extraction, automatic relationships) never
/// changes the outcome.
pub fn store_outcome(created: Result<Memory, String>) -> (r: Result<String, LocaiError>)
    ensures
        match created {
            Ok(m) => r matches Ok(id) && id@ == m.id@,
            Err(e) => r matches Err(LocaiError::Storage(s)) && s@ == "Failed to store memory: "@ + e@,
        },
{
    match created {
        Ok(m) => Ok(m.id),
        Err(e) => Err(LocaiError::Storage(String::from_str("Failed to store memory: ").concat(e.as_str()))),
    }
}

/// The outcome of updating a memory, from what storage answered the update:
/// `true`, or a storage error reading `Failed to update memory: ` and
/// storage's message. What happens to the vector record never changes it.
pub fn update_outcome(updated: Result<Memory, String>) -> (r: Result<bool, LocaiError>)
    ensures
        match updated {
            Ok(_) => r == Ok::<bool, LocaiError>(true),
            Err(e) => r matches Err(LocaiError::Storage(s)) && s@ == "Failed to update memory: "@ + e@,
        },
{
    match updated {
        Ok(_) => Ok(true),
        Err(e) => Err(LocaiError::Storage(String::from_str("Failed to update memory: ").concat(e.as_str()))),
    }
}

/// The kinds of entity extractor a configuration can name.
#[derive(Debug, Clone, Copy, PartialEq, Eq, Structural)]
pub enum ExtractorKind {
    /// Pattern-based extraction of structured data
    Regex,
    /// A combination of extractors, with or without the pattern-based one
    Hybrid { enable_basic: bool },
    /// A pipeline of extractors
    Pipeline,
    /// spaCy models
    Spacy,
    /// Hugging Face transformer models
    HuggingFace,
    /// A language model
    Llm,
}

/// One configured entity extractor.
#[derive(Debug, Clone, Copy, PartialEq, Eq, Structural)]
pub struct ExtractorSetting {
    pub enabled: bool,
    pub kind: ExtractorKind,
}

/// The entity-extraction settings that decide what memory operations set up.
#[derive(Debug)]
pub struct EntityExtractionSettings {
    /// Whether entity extraction is on
    pub enabled: bool,
    /// The configured extractors
    pub extractors: Vec<ExtractorSetting>,
    /// Whether extracted entities are resolved against known ones
    pub deduplicate_entities: bool,
    /// Whether relationships between entities are created automatically
    pub automatic_relationships: bool,
}

/// What memory operations set up from the settings.
#[derive(Debug, Clone, Copy, PartialEq, Eq, Structural)]
pub struct ExtractionPlan {
    /// How many pattern-based extractors run
    pub basic_extractors: usize,
    /// Whether an entity resolver is made
    pub entity_resolver: bool,
    /// Whether an automatic relationship creator is made
    pub relationship_creator: bool,
}

/// How many of the extractors are enabled pattern-based ones.
pub open spec fn enabled_regex_count(s: Seq<ExtractorSetting>) -> nat
    decreases s.len(),
{
    if s.len() == 0 {
        0
    } else {
        enabled_regex_count(s.drop_last()) + if s.last().enabled && s.last().kind == ExtractorKind::Regex {
            1nat
        } else {
            0nat
        }
    }
}

/// How many of the extractors are enabled pattern-based ones or enabled
/// hybrids that include the pattern-based one.
pub open spec fn enabled_basic_count(s: Seq<ExtractorSetting>) -> nat
    decreases s.len(),
{
    if s.len() == 0 {
        0
    } else {
        enabled_basic_count(s.drop_last()) + if s.last().enabled && (s.last().kind == ExtractorKind::Regex
            || s.last().kind == (ExtractorKind::Hybrid { enable_basic: true })) {
            1nat
        } else {
            0nat
        }
    }
}

/// Neither count exceeds the number of extractors.
proof fn lemma_counts_bounded(s: Seq<ExtractorSetting>)
    ensures
        enabled_regex_count(s) <= s.len(),
        enabled_basic_count(s) <= s.len(),
    decreases s.len(),
{
    if s.len() > 0 {
        lemma_counts_bounded(s.drop_last());
    }
}

/// What memory operations set up when made: with extraction on, one
/// pattern-based extractor for each enabled one configured (the others need
/// asynchronous set-up and wait for it), and an entity resolver when entities
/// are deduplicated; a relationship creator whenever automatic relationships
/// are on.
pub fn plan_extraction(settings: &EntityExtractionSettings) -> (r: ExtractionPlan)
    ensures
        r.basic_extractors == if settings.enabled { enabled_regex_count(settings.extractors@) } else { 0 },
        r.entity_resolver == (settings.enabled && settings.deduplicate_entities),
        r.relationship_creator == settings.automatic_relationships,
{
    let mut count: usize = 0;
    if settings.enabled {
        let mut i: usize = 0;
        while i < settings.extractors.len()
            invariant
                i <= settings.extractors@.len(),
                count == enabled_regex_count(settings.extractors@.take(i as int)),
            decreases settings.extractors.len() - i,
        {
            let ghost t = settings.extractors@.take(i + 1);
            assert(t.drop_last() =~= settings.extractors@.take(i as int));
            proof {
                lemma_counts_bounded(settings.extractors@.take(i as int));
            }
            let e = settings.extractors[i];
            if e.enabled && matches!(e.kind, ExtractorKind::Regex) {
                count = count + 1;
            }
            i += 1;
        }
        assert(settings.extractors@.take(settings.extractors@.len() as int) =~= settings.extractors@);
    }
    ExtractionPlan {
        basic_extractors: count,
        entity_resolver: settings.enabled && settings.deduplicate_entities,
        relationship_creator: settings.automatic_relationships,
    }
}

/// How many pattern-based extractors the asynchronous set-up adds: none with
/// extraction off; one when no extractor is configured; otherwise one for each
/// enabled pattern-based extractor and each enabled hybrid that includes it.
pub fn extractors_added_later(settings: &EntityExtractionSettings) -> (r: usize)
    ensures
        r == if !settings.enabled {
            0
        } else if settings.extractors@.len() == 0 {
            1
        } else {
            enabled_basic_count(settings.extractors@)
        },
{
    if !settings.enabled {
        return 0;
    }
    if settings.extractors.len() == 0 {
        return 1;
    }
    let mut count: usize = 0;
    let mut i: usize = 0;
    while i < settings.extractors.len()
        invariant
            i <= settings.extractors@.len(),
            count == enabled_basic_count(settings.extractors@.take(i as int)),
        decreases settings.extractors.len() - i,
    {
        let ghost t = settings.extractors@.take(i + 1);
        assert(t.drop_last() =~= settings.extractors@.take(i as int));
        proof {
            lemma_counts_bounded(settings.extractors@.take(i as int));
        }
        let e = settings.extractors[i];
        let basic = match e.kind {
            ExtractorKind::Regex => true,
            ExtractorKind::Hybrid { enable_basic } => enable_basic,
            _ => false,
        };
        if e.enabled && basic {
            count = count + 1;
        }
        i += 1;
    }
    assert(settings.extractors@.take(settings.extractors@.len() as int) =~= settings.extractors@);
    count
}

} // verus!

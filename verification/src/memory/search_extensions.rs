//! Search modes and options over memories.

use vstd::prelude::*;
use crate::json::{field, JsonValue, JsonView};
use crate::models::memory::MemoryType;
use crate::text::{contains_seq, join_with, lowercase_chars, str_contains, str_eq, to_lowercase};
use crate::time::F32Bits;

verus! {

/// Defines the mode for search operations.
#[derive(Debug, Clone, Copy, PartialEq, Eq, Structural)]
pub enum SearchMode {
    /// BM25 full-text search only (the default)
    Text,
    /// Vector similarity search only (requires embeddings)
    Vector,
    /// Combines BM25 and vector search with reciprocal rank fusion
    Hybrid,
}

impl Default for SearchMode {
    fn default() -> (m: Self)
        ensures
            m == SearchMode::Text,
    {
        SearchMode::Text
    }
}

/// Options for universal search.
#[derive(Debug)]
pub struct UniversalSearchOptions {
    /// Include memory results
    pub include_memories: bool,
    /// Include entity results
    pub include_entities: bool,
    /// Include graph results (memory subgraphs)
    pub include_graphs: bool,
    /// Maximum depth for graph results
    pub graph_depth: u8,
    /// Memory type filter
    pub memory_type_filter: Option<MemoryType>,
    /// Entity type filter
    pub entity_type_filter: Option<String>,
    /// Similarity threshold for semantic results
    pub similarity_threshold: Option<F32Bits>,
    /// Whether to expand results with related data
    pub expand_with_relations: bool,
}

impl Default for UniversalSearchOptions {
    /// Memories and entities, no graphs (they are expensive), graphs one level
    /// deep, no filters or threshold, expanded with related data.
    fn default() -> (o: Self)
        ensures
            o.include_memories,
            o.include_entities,
            !o.include_graphs,
            o.graph_depth == 1,
            o.memory_type_filter is None,
            o.entity_type_filter is None,
            o.similarity_threshold is None,
            o.expand_with_relations,
    {
        UniversalSearchOptions {
            include_memories: true,
            include_entities: true,
            include_graphs: false,
            graph_depth: 1,
            memory_type_filter: None,
            entity_type_filter: None,
            similarity_threshold: None,
            expand_with_relations: true,
        }
    }
}

/// Whether `text` mentions the query, both lowercased.
pub open spec fn mentions(text: Seq<char>, query: Seq<char>) -> bool {
    contains_seq(lowercase_chars(text), lowercase_chars(query))
}

/// The value under the first of `keys` that the properties hold.
pub open spec fn first_field(props: JsonView, keys: Seq<Seq<char>>) -> Option<JsonView>
    decreases keys.len(),
{
    if keys.len() == 0 {
        None
    } else {
        match field(props, keys[0]) {
            Some(v) => Some(v),
            None => first_field(props, keys.drop_first()),
        }
    }
}

/// The name of an entity: the string under the first of `name`, `text` and
/// `value` that its properties hold, else its identifier.
pub open spec fn entity_name(props: JsonView, id: Seq<char>) -> Seq<char> {
    match first_field(props, seq!["name"@, "text"@, "value"@]) {
        Some(JsonView::String(s)) => s,
        _ => id,
    }
}

/// The description of an entity: the string under the first of
/// `description` and `desc` that its properties hold, if it is a string.
pub open spec fn entity_description(props: JsonView) -> Option<Seq<char>> {
    match first_field(props, seq!["description"@, "desc"@]) {
        Some(JsonView::String(s)) => Some(s),
        _ => None,
    }
}

/// Whether a property key names the entity's name or description.
pub open spec fn is_named_key(k: Seq<char>) -> bool {
    k == "name"@ || k == "description"@ || k == "desc"@ || k == "text"@ || k == "value"@
}

/// The first other property, in the object's order, whose string value
/// mentions the query.
pub open spec fn first_matching_property(entries: Seq<(Seq<char>, JsonView)>, query: Seq<char>) -> Option<Seq<char>>
    decreases entries.len(),
{
    if entries.len() == 0 {
        None
    } else if !is_named_key(entries[0].0) && (entries[0].1 matches JsonView::String(v) && mentions(v, query)) {
        Some(entries[0].0)
    } else {
        first_matching_property(entries.drop_first(), query)
    }
}

/// How an entity matches a search query: by name, description, type, and
/// the first other property that mentions it, with the reasons joined.
#[derive(Debug)]
pub struct EntityMatch {
    pub name: bool,
    pub description: bool,
    pub entity_type: bool,
    pub property: Option<String>,
    pub match_reason: String,
}

/// The reasons an entity matches, in order.
pub open spec fn entity_match_reasons(name: bool, description: bool, entity_type: bool, property: Option<Seq<char>>) -> Seq<
    Seq<char>,
> {
    (if name { seq!["name match"@] } else { Seq::empty() }) + (if description {
        seq!["description match"@]
    } else {
        Seq::empty()
    }) + (if entity_type { seq!["type match"@] } else { Seq::empty() }) + match property {
        Some(k) => seq!["property "@ + k + " match"@],
        None => Seq::empty(),
    }
}

/// The property keys of an object, else none.
fn object_entries(v: &JsonValue) -> (r: Option<&Vec<(String, JsonValue)>>)
    ensures
        match r {
            Some(e) => v@ == JsonView::Object(crate::json::entries_view(e@)),
            None => !(v@ is Object),
        },
{
    match v {
        JsonValue::Object(e) => {
            assert(v@->Object_0 =~= crate::json::entries_view(e@));
            Some(e)
        },
        _ => None,
    }
}

/// How an entity with identifier `id`, type `entity_type` and properties
/// `props` matches `query`, ignoring case: its name, its description, its
/// type, and the first other string property (by key order in the object)
/// that contains the query; the reasons are joined with `, `.
pub fn match_entity(id: &str, entity_type: &str, props: &JsonValue, query: &str) -> (r: EntityMatch)
    ensures
        r.name == mentions(entity_name(props@, id@), query@),
        r.description == (entity_description(props@) matches Some(d) && mentions(d, query@)),
        r.entity_type == mentions(entity_type@, query@),
        crate::text::opt_view(r.property) == match props@ {
            JsonView::Object(entries) => first_matching_property(entries, query@),
            _ => None,
        },
        r.match_reason@ == join_with(
            entity_match_reasons(r.name, r.description, r.entity_type, crate::text::opt_view(r.property)),
            ", "@,
        ),
{
    let q = to_lowercase(query);
    let ghost names = seq!["name"@, "text"@, "value"@];
    let named = match props.get("name") {
        Some(v) => Some(v),
        None => match props.get("text") {
            Some(v) => Some(v),
            None => props.get("value"),
        },
    };
    proof {
        reveal_with_fuel(first_field, 4);
        reveal_strlit("name");
        reveal_strlit("text");
        reveal_strlit("value");
        assert(names.drop_first() =~= seq!["text"@, "value"@]);
        assert(names.drop_first().drop_first() =~= seq!["value"@]);
        assert(names.drop_first().drop_first().drop_first() =~= Seq::<Seq<char>>::empty());
    }
    let name_text: &str = match named {
        Some(v) => match v.as_str() {
            Some(s) => s,
            None => id,
        },
        None => id,
    };
    let name = str_contains(to_lowercase(name_text).as_str(), q.as_str());
    let described = match props.get("description") {
        Some(v) => Some(v),
        None => props.get("desc"),
    };
    proof {
        reveal_with_fuel(first_field, 3);
        let ds = seq!["description"@, "desc"@];
        assert(ds.drop_first() =~= seq!["desc"@]);
        assert(ds.drop_first().drop_first() =~= Seq::<Seq<char>>::empty());
    }
    let description = match described {
        Some(v) => match v.as_str() {
            Some(d) => str_contains(to_lowercase(d).as_str(), q.as_str()),
            None => false,
        },
        None => false,
    };
    let typed = str_contains(to_lowercase(entity_type).as_str(), q.as_str());
    let mut property: Option<String> = None;
    if let Some(entries) = object_entries(props) {
        let ghost ev = crate::json::entries_view(entries@);
        let mut i: usize = 0;
        assert(ev.skip(0) =~= ev);
        while i < entries.len() && property.is_none()
            invariant
                i <= entries.len(),
                ev == crate::json::entries_view(entries@),
                q@ == lowercase_chars(query@),
                property is None ==> first_matching_property(ev, query@) == first_matching_property(
                    ev.skip(i as int),
                    query@,
                ),
                property is Some ==> crate::text::opt_view(property) == first_matching_property(ev, query@),
            decreases entries.len() - i,
        {
            let ghost rest = ev.skip(i as int);
            assert(rest.drop_first() =~= ev.skip(i + 1));
            assert(rest[0] == (entries@[i as int].0@, entries@[i as int].1@));
            let k = entries[i].0.as_str();
            proof {
                reveal_strlit("name");
                reveal_strlit("text");
                reveal_strlit("value");
                reveal_strlit("description");
                reveal_strlit("desc");
            }
            let named_key = str_eq(k, "name") || str_eq(k, "description") || str_eq(k, "desc") || str_eq(k, "text")
                || str_eq(k, "value");
            if !named_key {
                if let Some(v) = entries[i].1.as_str() {
                    if str_contains(to_lowercase(v).as_str(), q.as_str()) {
                        property = Some(String::from_str(k));
                    }
                }
            }
            i += 1;
        }
        if property.is_none() {
            assert(ev.skip(i as int).len() == 0);
        }
    }
    let ghost rv = entity_match_reasons(name, description, typed, crate::text::opt_view(property));
    let mut reasons: Vec<String> = Vec::new();
    if name {
        reasons.push(String::from_str("name match"));
    }
    if description {
        reasons.push(String::from_str("description match"));
    }
    if typed {
        reasons.push(String::from_str("type match"));
    }
    match &property {
        Some(k) => {
            reasons.push(String::from_str("property ").concat(k.as_str()).concat(" match"));
        },
        None => {},
    }
    assert(reasons@.map_values(|s: String| s@) =~= rv);
    let mut out = String::new();
    if reasons.len() > 0 {
        out = reasons[0].clone();
        let mut k: usize = 1;
        assert(rv.take(1) =~= seq![rv[0]]);
        while k < reasons.len()
            invariant
                1 <= k <= reasons.len(),
                rv == reasons@.map_values(|s: String| s@),
                out@ == join_with(rv.take(k as int), ", "@),
            decreases reasons.len() - k,
        {
            assert(rv.take(k + 1).drop_last() =~= rv.take(k as int));
            out = out.concat(", ").concat(reasons[k].as_str());
            k += 1;
        }
        assert(rv.take(reasons.len() as int) =~= rv);
    } else {
        assert(rv =~= Seq::<Seq<char>>::empty());
    }
    EntityMatch { name, description, entity_type: typed, property, match_reason: out }
}

/// An entity as entity search reads it: its identifier, its type and its
/// properties.
#[derive(Debug)]
pub struct EntityRecord {
    pub id: String,
    pub entity_type: String,
    pub properties: JsonValue,
}

/// Whether an entity matches a query in any way.
pub open spec fn entity_hit(e: EntityRecord, query: Seq<char>) -> bool {
    ||| mentions(entity_name(e.properties@, e.id@), query)
    ||| (entity_description(e.properties@) matches Some(d) && mentions(d, query))
    ||| mentions(e.entity_type@, query)
    ||| (match e.properties@ {
        JsonView::Object(entries) => first_matching_property(entries, query) is Some,
        _ => false,
    })
}

/// The positions, in order, of the entities that match a query.
pub open spec fn hit_positions(es: Seq<EntityRecord>, query: Seq<char>) -> Seq<int>
    decreases es.len(),
{
    if es.len() == 0 {
        Seq::empty()
    } else {
        let rest = hit_positions(es.drop_last(), query);
        if entity_hit(es.last(), query) {
            rest.push(es.len() - 1)
        } else {
            rest
        }
    }
}

/// Whether `m` is how entity `e` matches the query.
pub open spec fn is_match_of(m: EntityMatch, e: EntityRecord, query: Seq<char>) -> bool {
    &&& m.name == mentions(entity_name(e.properties@, e.id@), query)
    &&& m.description == (entity_description(e.properties@) matches Some(d) && mentions(d, query))
    &&& m.entity_type == mentions(e.entity_type@, query)
    &&& crate::text::opt_view(m.property) == match e.properties@ {
        JsonView::Object(entries) => first_matching_property(entries, query),
        _ => None,
    }
    &&& m.match_reason@ == join_with(
        entity_match_reasons(m.name, m.description, m.entity_type, crate::text::opt_view(m.property)),
        ", "@,
    )
}

/// The entities that match a query, in their order: each one's position
/// among `entities` with how it matches; entities that match in no way are
/// left out.
pub fn matching_entities(entities: &[EntityRecord], query: &str) -> (r: Vec<(usize, EntityMatch)>)
    ensures
        r@.len() == hit_positions(entities@, query@).len(),
        forall|j: int| 0 <= j < r@.len() ==> {
            &&& (#[trigger] r@[j]).0 == hit_positions(entities@, query@)[j]
            &&& is_match_of(r@[j].1, entities@[r@[j].0 as int], query@)
        },
{
    let mut out: Vec<(usize, EntityMatch)> = Vec::new();
    let mut i: usize = 0;
    while i < entities.len()
        invariant
            i <= entities@.len(),
            out@.len() == hit_positions(entities@.take(i as int), query@).len(),
            forall|j: int| 0 <= j < out@.len() ==> {
                &&& (#[trigger] out@[j]).0 == hit_positions(entities@.take(i as int), query@)[j]
                &&& 0 <= out@[j].0 < i
                &&& is_match_of(out@[j].1, entities@[out@[j].0 as int], query@)
            },
        decreases entities.len() - i,
    {
        let ghost t = entities@.take(i + 1);
        assert(t.drop_last() =~= entities@.take(i as int));
        assert(t.last() == entities@[i as int]);
        let e = &entities[i];
        let m = match_entity(e.id.as_str(), e.entity_type.as_str(), &e.properties, query);
        if m.name || m.description || m.entity_type || m.property.is_some() {
            out.push((i, m));
        }
        i += 1;
    }
    assert(entities@.take(entities@.len() as int) =~= entities@);
    out
}

} // verus!

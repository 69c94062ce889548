//! Relationship type registry.
//!
//! A registry of relationship type definitions keyed by name. Custom types are
//! registered at run time beside a seeded set of common ones. Persisting the
//! definitions and sharing the registry between tasks is left to the caller;
//! this type holds the definitions and decides every change.

use vstd::prelude::*;
use crate::json::{JsonValue, JsonView, entries_view, obj_insert, insert_entry, copy_entries, lemma_insert_pos_unique};
use crate::text::{str_eq, is_blank, is_blank_seq, is_white_char, is_alphanumeric, unicode_alphanumeric, is_ascii_alnum, opt_view};
use crate::time::{Timestamp, now};

verus! {

/// Error types for registry operations.
#[derive(Debug, Clone, PartialEq, Eq)]
pub enum RegistryError {
    /// A type of that name is registered already.
    TypeAlreadyExists(String),
    /// No type of that name is registered.
    TypeNotFound(String),
    /// The type name is not acceptable.
    InvalidTypeName(String),
    /// The metadata schema is not acceptable.
    InvalidSchema(String),
    /// The type is still used by relationships.
    TypeInUse(String),
    /// Something went wrong inside the registry or its storage.
    InternalError(String),
}

/// The message of a registry error.
pub open spec fn registry_error_text(e: RegistryError) -> Seq<char> {
    match e {
        RegistryError::TypeAlreadyExists(s) => "Relationship type already exists: "@ + s@,
        RegistryError::TypeNotFound(s) => "Relationship type not found: "@ + s@,
        RegistryError::InvalidTypeName(s) => "Invalid type name: "@ + s@,
        RegistryError::InvalidSchema(s) => "Invalid schema: "@ + s@,
        RegistryError::TypeInUse(s) => "Type in use, cannot delete: "@ + s@,
        RegistryError::InternalError(s) => "Internal error: "@ + s@,
    }
}

impl RegistryError {
    /// The human-readable message of this error.
    pub fn to_string(&self) -> (s: String)
        ensures
            s@ == registry_error_text(*self),
    {
        match self {
            RegistryError::TypeAlreadyExists(m) => String::from_str("Relationship type already exists: ").concat(m.as_str()),
            RegistryError::TypeNotFound(m) => String::from_str("Relationship type not found: ").concat(m.as_str()),
            RegistryError::InvalidTypeName(m) => String::from_str("Invalid type name: ").concat(m.as_str()),
            RegistryError::InvalidSchema(m) => String::from_str("Invalid schema: ").concat(m.as_str()),
            RegistryError::TypeInUse(m) => String::from_str("Type in use, cannot delete: ").concat(m.as_str()),
            RegistryError::InternalError(m) => String::from_str("Internal error: ").concat(m.as_str()),
        }
    }
}

/// Definition of a relationship type with metadata about its characteristics.
#[derive(Debug)]
pub struct RelationshipTypeDef {
    /// Unique name for this relationship type
    pub name: String,
    /// Optional inverse relationship type name ("knows" might have "known_by")
    pub inverse: Option<String>,
    /// Whether this relationship is symmetric (bidirectional), like "married_to"
    pub symmetric: bool,
    /// Whether this relationship is transitive, like "part_of"
    pub transitive: bool,
    /// JSON Schema for validating metadata on relationships of this type
    pub metadata_schema: Option<JsonValue>,
    /// Version of this type definition (for migration/compatibility)
    pub version: u32,
    /// When this type was registered
    pub created_at: Timestamp,
    /// Custom metadata about this type, in key order
    pub custom_metadata: Vec<(String, JsonValue)>,
}

/// A relationship type definition with its texts and values as views.
pub struct TypeDefView {
    pub name: Seq<char>,
    pub inverse: Option<Seq<char>>,
    pub symmetric: bool,
    pub transitive: bool,
    pub metadata_schema: Option<JsonView>,
    pub version: u32,
    pub created_at: Timestamp,
    pub custom_metadata: Seq<(Seq<char>, JsonView)>,
}

/// The view of an optional JSON value.
pub open spec fn opt_json_view(o: Option<JsonValue>) -> Option<JsonView> {
    match o {
        Some(v) => Some(v@),
        None => None,
    }
}

impl View for RelationshipTypeDef {
    type V = TypeDefView;

    open spec fn view(&self) -> TypeDefView {
        TypeDefView {
            name: self.name@,
            inverse: opt_view(self.inverse),
            symmetric: self.symmetric,
            transitive: self.transitive,
            metadata_schema: opt_json_view(self.metadata_schema),
            version: self.version,
            created_at: self.created_at,
            custom_metadata: entries_view(self.custom_metadata@),
        }
    }
}

/// Whether `c` may appear in a type name: a Unicode letter or digit, `_` or `-`.
pub open spec fn is_name_char(c: char) -> bool {
    if (c as u32) < 128 {
        is_ascii_alnum(c) || c == '_' || c == '-'
    } else {
        unicode_alphanumeric(c)
    }
}

/// The reason a type name is refused, if it is: it must not be blank, and
/// it may hold only letters, digits, hyphens and underscores.
pub open spec fn type_name_error(name: Seq<char>) -> Option<Seq<char>> {
    if is_blank_seq(name) {
        Some("Type name cannot be empty"@)
    } else if !(forall|i: int| 0 <= i < name.len() ==> is_name_char(#[trigger] name[i])) {
        Some("Type name can only contain alphanumeric characters, hyphens, and underscores"@)
    } else {
        None
    }
}

/// Whether `d` is the fresh definition `new` makes for `name` (its creation
/// time aside).
pub open spec fn is_fresh_def(d: TypeDefView, name: Seq<char>) -> bool {
    &&& d.name == name
    &&& d.inverse is None
    &&& !d.symmetric
    &&& !d.transitive
    &&& d.metadata_schema is None
    &&& d.version == 1
    &&& d.custom_metadata.len() == 0
}

/// Whether every character of `name` may appear in a type name.
fn all_name_chars(name: &str) -> (r: bool)
    ensures
        r == (forall|i: int| 0 <= i < name@.len() ==> is_name_char(#[trigger] name@[i])),
{
    let n = name.unicode_len();
    let mut i: usize = 0;
    while i < n
        invariant
            n == name@.len(),
            i <= n,
            forall|j: int| 0 <= j < i ==> is_name_char(#[trigger] name@[j]),
        decreases n - i,
    {
        let c = name.get_char(i);
        if !(is_alphanumeric(c) || c == '_' || c == '-') {
            assert(!is_name_char(name@[i as int]));
            return false;
        }
        i += 1;
    }
    true
}

/// A copy of an optional JSON value.
fn copy_opt_json(o: &Option<JsonValue>) -> (r: Option<JsonValue>)
    ensures
        opt_json_view(r) == opt_json_view(*o),
{
    match o {
        Some(v) => Some(v.deep_copy()),
        None => None,
    }
}

impl RelationshipTypeDef {
    /// Create a new relationship type definition, stamped with the current time.
    pub fn new(name: String) -> (r: Result<Self, RegistryError>)
        ensures
            match type_name_error(name@) {
                Some(msg) => r matches Err(RegistryError::InvalidTypeName(m)) && m@ == msg,
                None => r matches Ok(d) && is_fresh_def(d@, name@),
            },
    {
        if is_blank(name.as_str()) {
            return Err(RegistryError::InvalidTypeName(String::from_str("Type name cannot be empty")));
        }
        if !all_name_chars(name.as_str()) {
            return Err(
                RegistryError::InvalidTypeName(
                    String::from_str(
                        "Type name can only contain alphanumeric characters, hyphens, and underscores",
                    ),
                ),
            );
        }
        let d = RelationshipTypeDef {
            name,
            inverse: None,
            symmetric: false,
            transitive: false,
            metadata_schema: None,
            version: 1,
            created_at: now(),
            custom_metadata: Vec::new(),
        };
        assert(d@.custom_metadata.len() == 0);
        Ok(d)
    }

    /// Set the inverse relationship type.
    pub fn with_inverse(self, inverse: String) -> (r: Self)
        ensures
            r@ == (TypeDefView { inverse: Some(inverse@), ..self@ }),
    {
        let mut d = self;
        d.inverse = Some(inverse);
        d
    }

    /// Mark this type as symmetric.
    pub fn symmetric(self) -> (r: Self)
        ensures
            r@ == (TypeDefView { symmetric: true, ..self@ }),
    {
        let mut d = self;
        d.symmetric = true;
        d
    }

    /// Mark this type as transitive.
    pub fn transitive(self) -> (r: Self)
        ensures
            r@ == (TypeDefView { transitive: true, ..self@ }),
    {
        let mut d = self;
        d.transitive = true;
        d
    }

    /// Set the metadata schema for this type.
    pub fn with_metadata_schema(self, schema: JsonValue) -> (r: Self)
        ensures
            r@ == (TypeDefView { metadata_schema: Some(schema@), ..self@ }),
    {
        let mut d = self;
        d.metadata_schema = Some(schema);
        d
    }

    /// Add custom metadata under `key`, replacing what was there.
    pub fn with_custom_metadata(self, key: String, value: JsonValue) -> (r: Self)
        ensures
            r@ == (TypeDefView { custom_metadata: obj_insert(self@.custom_metadata, key@, value@), ..self@ }),
    {
        let mut d = self;
        insert_entry(&mut d.custom_metadata, key.as_str(), value);
        d
    }

    /// A copy of this definition.
    pub fn copy(&self) -> (r: Self)
        ensures
            r@ == self@,
    {
        RelationshipTypeDef {
            name: self.name.clone(),
            inverse: match &self.inverse {
                Some(s) => Some(s.clone()),
                None => None,
            },
            symmetric: self.symmetric,
            transitive: self.transitive,
            metadata_schema: copy_opt_json(&self.metadata_schema),
            version: self.version,
            created_at: self.created_at,
            custom_metadata: copy_entries(&self.custom_metadata),
        }
    }
}

impl Clone for RelationshipTypeDef {
    fn clone(&self) -> (r: Self)
        ensures
            r@ == self@,
    {
        self.copy()
    }
}

impl Default for RelationshipTypeDef {
    /// The `generic` type: neither symmetric nor transitive, no inverse.
    fn default() -> (r: Self)
        ensures
            is_fresh_def(r@, "generic"@),
    {
        let d = RelationshipTypeDef {
            name: String::from_str("generic"),
            inverse: None,
            symmetric: false,
            transitive: false,
            metadata_schema: None,
            version: 1,
            created_at: now(),
            custom_metadata: Vec::new(),
        };
        assert(d@.custom_metadata.len() == 0);
        d
    }
}

/// The names of a list of definitions.
pub open spec fn def_names(defs: Seq<TypeDefView>) -> Seq<Seq<char>> {
    defs.map_values(|d: TypeDefView| d.name)
}

/// The definitions of a list keyed by name.
pub open spec fn defs_map(defs: Seq<TypeDefView>) -> Map<Seq<char>, TypeDefView> {
    Map::new(
        |k: Seq<char>| def_names(defs).contains(k),
        |k: Seq<char>| defs[def_names(defs).index_of(k)],
    )
}

/// In a list with distinct names, each definition is found under its name.
pub proof fn lemma_defs_map_at(defs: Seq<TypeDefView>, i: int)
    requires
        def_names(defs).no_duplicates(),
        0 <= i < defs.len(),
    ensures
        defs_map(defs).contains_key(defs[i].name),
        defs_map(defs)[defs[i].name] == defs[i],
{
    let names = def_names(defs);
    assert(names[i] == defs[i].name);
    let k = names.index_of(defs[i].name);
    assert(names[k] == names[i]);
}

/// A name is a key of the map exactly when some definition carries it.
pub proof fn lemma_defs_map_keys(defs: Seq<TypeDefView>, name: Seq<char>)
    ensures
        defs_map(defs).contains_key(name) <==> exists|i: int| 0 <= i < defs.len() && defs[i].name == name,
{
    if defs_map(defs).contains_key(name) {
        let i = def_names(defs).index_of(name);
        assert(defs[i].name == name);
    }
    if exists|i: int| 0 <= i < defs.len() && defs[i].name == name {
        let i = choose|i: int| 0 <= i < defs.len() && defs[i].name == name;
        assert(def_names(defs)[i] == name);
    }
}

/// Two lists with distinct names and the same definitions under each name
/// give the same map.
pub proof fn lemma_defs_map_ext(a: Seq<TypeDefView>, b: Seq<TypeDefView>, m: Map<Seq<char>, TypeDefView>)
    requires
        def_names(a).no_duplicates(),
        forall|k: Seq<char>| m.contains_key(k) <==> exists|i: int| 0 <= i < a.len() && a[i].name == k,
        forall|i: int| 0 <= i < a.len() ==> m[a[i].name] == a[i],
        b == a,
    ensures
        defs_map(b) == m,
{
    assert forall|k: Seq<char>| defs_map(a).contains_key(k) <==> m.contains_key(k) by {
        lemma_defs_map_keys(a, k);
    }
    assert forall|k: Seq<char>| defs_map(a).contains_key(k) implies defs_map(a)[k] == m[k] by {
        lemma_defs_map_keys(a, k);
        let i = choose|i: int| 0 <= i < a.len() && a[i].name == k;
        lemma_defs_map_at(a, i);
    }
    assert(defs_map(a) =~= m);
}

/// With distinct names there are as many keys as definitions.
pub proof fn lemma_defs_map_len(defs: Seq<TypeDefView>)
    requires
        def_names(defs).no_duplicates(),
    ensures
        defs_map(defs).dom().finite(),
        defs_map(defs).dom().len() == defs.len(),
{
    def_names(defs).unique_seq_to_set();
    assert(defs_map(defs).dom() =~= def_names(defs).to_set());
}

/// The map after setting each definition of `defs` in turn.
pub open spec fn insert_all(m: Map<Seq<char>, TypeDefView>, defs: Seq<TypeDefView>) -> Map<Seq<char>, TypeDefView>
    decreases defs.len(),
{
    if defs.len() == 0 {
        m
    } else {
        insert_all(m, defs.drop_last()).insert(defs.last().name, defs.last())
    }
}

/// The common relationship types the registry can be seeded with:
/// name, whether symmetric, inverse name, and category.
pub open spec fn common_types() -> Seq<(Seq<char>, bool, Option<Seq<char>>, Seq<char>)> {
    seq![
        ("friendship"@, true, None, "social"@),
        ("rivalry"@, false, None, "competitive"@),
        ("professional"@, false, None, "work"@),
        ("mentorship"@, false, Some("mentee"@), "learning"@),
        ("family"@, true, None, "kinship"@),
        ("romance"@, true, None, "intimate"@),
        ("antagonistic"@, false, None, "hostile"@),
        ("neutral"@, true, None, "neutral"@),
        ("alliance"@, true, None, "collaborative"@),
        ("competition"@, false, None, "competitive"@),
    ]
}

/// Whether `d` is the seeded definition described by `e` (its creation time
/// aside): the category stored as custom metadata.
pub open spec fn is_seeded_def(d: TypeDefView, e: (Seq<char>, bool, Option<Seq<char>>, Seq<char>)) -> bool {
    &&& d.name == e.0
    &&& d.symmetric == e.1
    &&& d.inverse == e.2
    &&& !d.transitive
    &&& d.metadata_schema is None
    &&& d.version == 1
    &&& d.custom_metadata == seq![("category"@, JsonView::String(e.3))]
}

/// A non-empty name of lowercase ASCII letters is a valid type name.
proof fn lemma_lowercase_name(s: Seq<char>)
    requires
        s.len() > 0,
        forall|i: int| 0 <= i < s.len() ==> 'a' <= #[trigger] s[i] <= 'z',
    ensures
        type_name_error(s) is None,
{
    assert(!is_white_char(s[0]));
    assert forall|i: int| 0 <= i < s.len() implies is_name_char(#[trigger] s[i]) by {
        assert('a' <= s[i] <= 'z');
    }
}

/// The names of the common types are valid type names.
proof fn lemma_common_names_valid()
    ensures
        forall|i: int| 0 <= i < common_types().len() ==> type_name_error(#[trigger] common_types()[i].0) is None,
{
    reveal_strlit("friendship");
    reveal_strlit("rivalry");
    reveal_strlit("professional");
    reveal_strlit("mentorship");
    reveal_strlit("family");
    reveal_strlit("romance");
    reveal_strlit("antagonistic");
    reveal_strlit("neutral");
    reveal_strlit("alliance");
    reveal_strlit("competition");
    lemma_lowercase_name("friendship"@);
    lemma_lowercase_name("rivalry"@);
    lemma_lowercase_name("professional"@);
    lemma_lowercase_name("mentorship"@);
    lemma_lowercase_name("family"@);
    lemma_lowercase_name("romance"@);
    lemma_lowercase_name("antagonistic"@);
    lemma_lowercase_name("neutral"@);
    lemma_lowercase_name("alliance"@);
    lemma_lowercase_name("competition"@);
}

/// The common types have distinct names.
proof fn lemma_common_names_distinct()
    ensures
        forall|i: int, j: int|
            0 <= i < common_types().len() && 0 <= j < common_types().len() && i != j ==> #[trigger] common_types()[i].0
                != #[trigger] common_types()[j].0,
{
    reveal_strlit("friendship");
    reveal_strlit("rivalry");
    reveal_strlit("professional");
    reveal_strlit("mentorship");
    reveal_strlit("family");
    reveal_strlit("romance");
    reveal_strlit("antagonistic");
    reveal_strlit("neutral");
    reveal_strlit("alliance");
    reveal_strlit("competition");
    assert("friendship"@[0] != "mentorship"@[0]);
    assert("rivalry"@[1] != "romance"@[1]);
    assert("rivalry"@[0] != "neutral"@[0]);
    assert("romance"@[0] != "neutral"@[0]);
    assert("professional"@[0] != "antagonistic"@[0]);
    let c = common_types();
    assert forall|i: int, j: int| 0 <= i < c.len() && 0 <= j < c.len() && i != j implies #[trigger] c[i].0 != #[trigger] c[j].0 by {
        if c[i].0 == c[j].0 {
            assert(c[i].0.len() == c[j].0.len());
            assert(c[i].0[0] == c[j].0[0]);
            assert(c[i].0[1] == c[j].0[1]);
        }
    }
}

/// Whether `after` is `before` seeded with the common types: the common names
/// are added, a name registered already keeps its definition, and each added
/// name holds its seeded definition.
pub open spec fn seeded_from(before: Map<Seq<char>, TypeDefView>, after: Map<Seq<char>, TypeDefView>) -> bool {
    &&& forall|k: Seq<char>|
        #![trigger after.contains_key(k)]
        after.contains_key(k) <==> before.contains_key(k) || exists|i: int|
            0 <= i < common_types().len() && (#[trigger] common_types()[i]).0 == k
    &&& forall|k: Seq<char>| before.contains_key(k) ==> after[k] == before[k]
    &&& forall|i: int|
        0 <= i < common_types().len() && !before.contains_key(#[trigger] common_types()[i].0) ==> is_seeded_def(
            after[common_types()[i].0],
            common_types()[i],
        )
}

/// After a successful registration the definition is found under its name.
pub proof fn lemma_registered_is_found(m: Map<Seq<char>, TypeDefView>, d: TypeDefView)
    ensures
        m.insert(d.name, d).contains_key(d.name),
        m.insert(d.name, d)[d.name] == d,
{
}

/// Registering a new name adds one type.
pub proof fn lemma_register_counts_one(m: Map<Seq<char>, TypeDefView>, d: TypeDefView)
    requires
        m.dom().finite(),
        !m.contains_key(d.name),
    ensures
        m.insert(d.name, d).len() == m.len() + 1,
{
}

/// After deleting a registered name it is no longer registered, and there is
/// one type fewer.
pub proof fn lemma_delete_forgets(m: Map<Seq<char>, TypeDefView>, name: Seq<char>)
    requires
        m.dom().finite(),
        m.contains_key(name),
    ensures
        !m.remove(name).contains_key(name),
        m.remove(name).len() == m.len() - 1,
{
}

/// Updating a registered type keeps the set of names.
pub proof fn lemma_update_keeps_names(m: Map<Seq<char>, TypeDefView>, d: TypeDefView)
    requires
        m.contains_key(d.name),
    ensures
        m.insert(d.name, d).dom() == m.dom(),
{
    assert(m.insert(d.name, d).dom() =~= m.dom());
}

/// Seeding is idempotent: seeding a registry that was seeded already leaves it
/// as it is.
pub proof fn lemma_seed_twice(
    m1: Map<Seq<char>, TypeDefView>,
    m2: Map<Seq<char>, TypeDefView>,
    m3: Map<Seq<char>, TypeDefView>,
)
    requires
        seeded_from(m1, m2),
        seeded_from(m2, m3),
    ensures
        m3 == m2,
{
    assert forall|k: Seq<char>| m3.contains_key(k) implies m2.contains_key(k) by {
        if !m2.contains_key(k) {
            let i = choose|i: int| 0 <= i < common_types().len() && (#[trigger] common_types()[i]).0 == k;
            assert(m2.contains_key(common_types()[i].0));
        }
    }
    assert(m3 =~= m2);
}

/// The view of an optional string slice.
pub open spec fn opt_str_view(o: Option<&str>) -> Option<Seq<char>> {
    match o {
        Some(s) => Some(s@),
        None => None,
    }
}

/// One of the common types: a fresh definition, made symmetric or given an
/// inverse as asked, with its category as custom metadata.
fn common_def(name: &str, symmetric: bool, inverse: Option<&str>, category: &str) -> (r: Result<
    RelationshipTypeDef,
    RegistryError,
>)
    ensures
        type_name_error(name@) is None ==> (r matches Ok(d) && is_seeded_def(
            d@,
            (name@, symmetric, opt_str_view(inverse), category@),
        )),
        type_name_error(name@) is Some ==> r is Err,
{
    let mut d = match RelationshipTypeDef::new(String::from_str(name)) {
        Ok(d) => d,
        Err(e) => {
            return Err(e);
        },
    };
    if symmetric {
        d = d.symmetric();
    }
    if let Some(inv) = inverse {
        d = d.with_inverse(String::from_str(inv));
    }
    let ghost before = d@.custom_metadata;
    d = d.with_custom_metadata(String::from_str("category"), JsonValue::String(String::from_str(category)));
    proof {
        lemma_insert_pos_unique(before, "category"@, 0);
        assert(d@.custom_metadata =~= seq![("category"@, JsonView::String(category@))]);
    }
    Ok(d)
}

/// A registry for relationship type definitions, keyed by name.
pub struct RelationshipTypeRegistry {
    types: Vec<RelationshipTypeDef>,
}

impl View for RelationshipTypeRegistry {
    type V = Map<Seq<char>, TypeDefView>;

    closed spec fn view(&self) -> Map<Seq<char>, TypeDefView> {
        defs_map(self.defs())
    }
}

/// The views of a list of definitions.
pub open spec fn defs_of(v: Seq<RelationshipTypeDef>) -> Seq<TypeDefView> {
    v.map_values(|d: RelationshipTypeDef| d@)
}

/// Index of the definition named `name`, if there is one.
fn find_in(types: &Vec<RelationshipTypeDef>, name: &str) -> (r: Option<usize>)
requires
    def_names(defs_of(types@)).no_duplicates(),
    ensures
        match r {
            Some(i) => i < types@.len() && types@[i as int].name@ == name@,
            None => !defs_map(defs_of(types@)).contains_key(name@),
        },
{
    let mut i: usize = 0;
    while i < types.len()
        invariant
            i <= types@.len(),
            forall|j: int| 0 <= j < i ==> types@[j].name@ != name@,
        decreases types.len() - i,
    {
        if str_eq(types[i].name.as_str(), name) {
            return Some(i);
        }
        i += 1;
    }
    proof {
        lemma_defs_map_keys(defs_of(types@), name@);
        if defs_map(defs_of(types@)).contains_key(name@) {
            let j = choose|j: int| 0 <= j < defs_of(types@).len() && defs_of(types@)[j].name == name@;
            assert(types@[j].name@ == name@);
        }
    }
    None
}

/// Set `def` under its name, replacing a definition of that name.
fn put_in(types: &mut Vec<RelationshipTypeDef>, def: RelationshipTypeDef)
requires
    def_names(defs_of(old(types)@)).no_duplicates(),
ensures
    def_names(defs_of(final(types)@)).no_duplicates(),
    defs_map(defs_of(final(types)@)) == defs_map(defs_of(old(types)@)).insert(def@.name, def@),
{
    let ghost d = def@;
    let ghost m = defs_map(defs_of(types@)).insert(d.name, d);
    let ghost before = defs_of(types@);
    proof {
        assert forall|i: int| 0 <= i < before.len() implies defs_map(defs_of(types@))[before[i].name] == before[i] by {
            lemma_defs_map_at(before, i);
        }
        assert forall|k: Seq<char>| defs_map(defs_of(types@)).contains_key(k) <==> exists|i: int| 0 <= i < before.len() && before[i].name == k by {
            lemma_defs_map_keys(before, k);
        }
    }
    match find_in(types, def.name.as_str()) {
        Some(i) => {
            types.set(i, def);
            let ghost after = defs_of(types@);
            assert(after =~= before.update(i as int, d));
            assert(def_names(after) =~= def_names(before)) by {
                assert(def_names(before)[i as int] == d.name);
            }
            proof {
                assert forall|j: int| 0 <= j < after.len() implies m[after[j].name] == after[j] by {
                    if j != i {
                        assert(def_names(before)[j] != def_names(before)[i as int]);
                    }
                }
                assert forall|k: Seq<char>| m.contains_key(k) <==> exists|j: int| 0 <= j < after.len() && after[j].name == k by {
                    if k == d.name {
                        assert(after[i as int].name == k);
                    } else if m.contains_key(k) {
                        let j = choose|j: int| 0 <= j < before.len() && before[j].name == k;
                        assert(after[j].name == k);
                    } else if exists|j: int| 0 <= j < after.len() && after[j].name == k {
                        let j = choose|j: int| 0 <= j < after.len() && after[j].name == k;
                        assert(before[j].name == k);
                    }
                }
                lemma_defs_map_ext(after, defs_of(types@), m);
            }
        },
        None => {
            types.push(def);
            let ghost after = defs_of(types@);
            assert(after =~= before.push(d));
            assert(def_names(after) =~= def_names(before).push(d.name));
            proof {
                assert(!def_names(before).contains(d.name)) by {
                    if def_names(before).contains(d.name) {
                        let j = def_names(before).index_of(d.name);
                        lemma_defs_map_keys(before, d.name);
                        assert(before[j].name == d.name);
                    }
                }
                assert forall|j: int| 0 <= j < after.len() implies m[after[j].name] == after[j] by {
                    if j < before.len() {
                        assert(def_names(before)[j] == before[j].name);
                    }
                }
                assert forall|k: Seq<char>| m.contains_key(k) <==> exists|j: int| 0 <= j < after.len() && after[j].name == k by {
                    if k == d.name {
                        assert(after[before.len() as int].name == k);
                    } else if m.contains_key(k) {
                        let j = choose|j: int| 0 <= j < before.len() && before[j].name == k;
                        assert(after[j].name == k);
                    } else if exists|j: int| 0 <= j < after.len() && after[j].name == k {
                        let j = choose|j: int| 0 <= j < after.len() && after[j].name == k;
                        assert(before[j].name == k);
                    }
                }
                lemma_defs_map_ext(after, defs_of(types@), m);
            }
        },
    }
}

/// Remove the definition at `i`.
fn remove_in(types: &mut Vec<RelationshipTypeDef>, i: usize)
requires
    def_names(defs_of(old(types)@)).no_duplicates(),
    i < old(types)@.len(),
ensures
    def_names(defs_of(final(types)@)).no_duplicates(),
    defs_map(defs_of(final(types)@)) == defs_map(defs_of(old(types)@)).remove(old(types)@[i as int].name@),
{
    let ghost before = defs_of(types@);
    let ghost name = before[i as int].name;
    let ghost m = defs_map(defs_of(types@)).remove(name);
    proof {
        assert forall|j: int| 0 <= j < before.len() implies defs_map(defs_of(types@))[before[j].name] == before[j] by {
            lemma_defs_map_at(before, j);
        }
        assert forall|k: Seq<char>| defs_map(defs_of(types@)).contains_key(k) <==> exists|j: int| 0 <= j < before.len() && before[j].name == k by {
            lemma_defs_map_keys(before, k);
        }
    }
    types.remove(i);
    let ghost after = defs_of(types@);
    assert(after =~= before.remove(i as int));
    assert(def_names(after) =~= def_names(before).remove(i as int));
    proof {
        assert forall|j: int| 0 <= j < after.len() implies after[j].name != name && m[after[j].name] == after[j] by {
            if j < i {
                assert(def_names(before)[j] != def_names(before)[i as int]);
            } else {
                assert(def_names(before)[j + 1] != def_names(before)[i as int]);
            }
        }
        assert forall|k: Seq<char>| m.contains_key(k) <==> exists|j: int| 0 <= j < after.len() && after[j].name == k by {
            if m.contains_key(k) {
                let j = choose|j: int| 0 <= j < before.len() && before[j].name == k;
                assert(j != i);
                if j < i {
                    assert(after[j].name == k);
                } else {
                    assert(after[j - 1].name == k);
                }
            }
            if exists|j: int| 0 <= j < after.len() && after[j].name == k {
                let j = choose|j: int| 0 <= j < after.len() && after[j].name == k;
                if j < i {
                    assert(before[j].name == k);
                } else {
                    assert(before[j + 1].name == k);
                }
            }
        }
        lemma_defs_map_ext(after, defs_of(types@), m);
    }
}

impl RelationshipTypeRegistry {
    /// The definitions in the order they are kept.
    closed spec fn defs(&self) -> Seq<TypeDefView> {
        defs_of(self.types@)
    }

    /// The registry keeps at most one definition per name.
    #[verifier::type_invariant]
    pub closed spec fn wf(&self) -> bool {
        def_names(self.defs()).no_duplicates()
    }

    /// Index of the definition named `name`, if there is one.
    fn find(&self, name: &str) -> (r: Option<usize>)
        ensures
            match r {
                Some(i) => i < self.types@.len() && self.types@[i as int].name@ == name@,
                None => !self@.contains_key(name@),
            },
    {
        proof {
            use_type_invariant(self);
        }
        find_in(&self.types, name)
    }

    /// Create a new empty registry.
    pub fn new() -> (r: Self)
        ensures
            r.wf(),
            r@ == Map::<Seq<char>, TypeDefView>::empty(),
    {
        let r = RelationshipTypeRegistry { types: Vec::new() };
        assert(r@ =~= Map::<Seq<char>, TypeDefView>::empty());
        r
    }

    /// Set `def` under its name, replacing a definition of that name.
    fn put(&mut self, def: RelationshipTypeDef)
        ensures
            final(self)@ == old(self)@.insert(def@.name, def@),
    {
        proof {
            use_type_invariant(&*self);
        }
        let mut types: Vec<RelationshipTypeDef> = Vec::new();
        std::mem::swap(&mut types, &mut self.types);
        put_in(&mut types, def);
        self.types = types;
    }

    /// Remove the definition at `i`.
    fn remove_at(&mut self, i: usize)
        requires
            i < old(self).types@.len(),
        ensures
            final(self)@ == old(self)@.remove(old(self).types@[i as int].name@),
    {
        proof {
            use_type_invariant(&*self);
        }
        let mut types: Vec<RelationshipTypeDef> = Vec::new();
        std::mem::swap(&mut types, &mut self.types);
        remove_in(&mut types, i);
        self.types = types;
    }

    /// Register a new relationship type. A name that is taken, or an inverse
    /// name that is blank, is refused and leaves the registry as it was.
    pub fn register(&mut self, def: RelationshipTypeDef) -> (r: Result<(), RegistryError>)
        ensures
            old(self)@.contains_key(def@.name) ==> (r matches Err(RegistryError::TypeAlreadyExists(n)) && n@
                == def@.name),
            !old(self)@.contains_key(def@.name) && (def@.inverse matches Some(inv) && is_blank_seq(inv))
                ==> (r matches Err(RegistryError::InvalidTypeName(m)) && m@ == "Inverse type name cannot be empty"@),
            r is Err ==> final(self)@ == old(self)@,
            r is Ok <==> !old(self)@.contains_key(def@.name) && !(def@.inverse matches Some(inv) && is_blank_seq(inv)),
            r is Ok ==> final(self)@ == old(self)@.insert(def@.name, def@),
            r is Ok ==> final(self)@.len() == old(self)@.len() + 1,
            final(self)@.dom().finite(),
    {
        proof {
            use_type_invariant(&*self);
        }
        proof {
            lemma_defs_map_len(self.defs());
        }
        if let Some(i) = self.find(def.name.as_str()) {
            proof {
                lemma_defs_map_at(self.defs(), i as int);
            }
            return Err(RegistryError::TypeAlreadyExists(def.name));
        }
        if let Some(inv) = &def.inverse {
            if is_blank(inv.as_str()) {
                return Err(RegistryError::InvalidTypeName(String::from_str("Inverse type name cannot be empty")));
            }
        }
        self.put(def);
        proof {
            use_type_invariant(&*self);
            lemma_defs_map_len(self.defs());
        }
        Ok(())
    }

    /// A registry keeps finitely many types.
    pub proof fn lemma_finite(&self)
        requires
            self.wf(),
        ensures
            self@.dom().finite(),
    {
        lemma_defs_map_len(self.defs());
    }

    /// A copy of the definition registered under `name`, if any.
    pub fn get(&self, name: &str) -> (r: Option<RelationshipTypeDef>)
        ensures
            match r {
                Some(d) => self@.contains_key(name@) && d@ == self@[name@],
                None => !self@.contains_key(name@),
            },
    {
        proof {
            use_type_invariant(self);
        }
        match self.find(name) {
            Some(i) => {
                proof {
                    lemma_defs_map_at(self.defs(), i as int);
                }
                Some(self.types[i].copy())
            },
            None => None,
        }
    }

    /// Copies of all registered definitions, each once, in no particular order.
    pub fn list(&self) -> (r: Vec<RelationshipTypeDef>)
        ensures
            r@.len() == self@.len(),
            forall|i: int| 0 <= i < r@.len() ==> self@.contains_key(#[trigger] r@[i]@.name) && self@[r@[i]@.name] == r@[i]@,
            forall|k: Seq<char>| self@.contains_key(k) ==> exists|i: int| 0 <= i < r@.len() && (#[trigger] r@[i]@).name == k,
    {
        proof {
            use_type_invariant(self);
        }
        let mut out: Vec<RelationshipTypeDef> = Vec::new();
        let mut i: usize = 0;
        while i < self.types.len()
            invariant
                i <= self.types@.len(),
                self.wf(),
                out@.len() == i,
                forall|j: int| 0 <= j < i ==> (#[trigger] out@[j])@ == self.types@[j]@,
            decreases self.types.len() - i,
        {
            out.push(self.types[i].copy());
            i += 1;
        }
        proof {
            lemma_defs_map_len(self.defs());
            assert forall|j: int| 0 <= j < out@.len() implies self@.contains_key(#[trigger] out@[j]@.name) && self@[out@[j]@.name] == out@[j]@ by {
                lemma_defs_map_at(self.defs(), j);
            }
            assert forall|k: Seq<char>| self@.contains_key(k) implies exists|j: int| 0 <= j < out@.len() && (#[trigger] out@[j]@).name == k by {
                lemma_defs_map_keys(self.defs(), k);
                let j = choose|j: int| 0 <= j < self.defs().len() && self.defs()[j].name == k;
                assert(out@[j]@.name == k);
            }
        }
        out
    }

    /// Whether a type of that name is registered.
    pub fn is_registered(&self, name: &str) -> (r: bool)
        ensures
            r == self@.contains_key(name@),
    {
        proof {
            use_type_invariant(self);
        }
        match self.find(name) {
            Some(i) => {
                proof {
                    lemma_defs_map_at(self.defs(), i as int);
                }
                true
            },
            None => false,
        }
    }

    /// Delete a relationship type; an unknown name is refused.
    pub fn delete(&mut self, name: &str) -> (r: Result<(), RegistryError>)
        ensures
            r is Ok <==> old(self)@.contains_key(name@),
            r is Ok ==> final(self)@ == old(self)@.remove(name@),
            r is Err ==> final(self)@ == old(self)@ && (r matches Err(RegistryError::TypeNotFound(n)) && n@ == name@),
    {
        proof {
            use_type_invariant(&*self);
        }
        match self.find(name) {
            Some(i) => {
                proof {
                    lemma_defs_map_at(self.defs(), i as int);
                }
                self.remove_at(i);
                Ok(())
            },
            None => Err(RegistryError::TypeNotFound(String::from_str(name))),
        }
    }

    /// Replace the definition registered under `def`'s name; an unknown name
    /// is refused.
    pub fn update(&mut self, def: RelationshipTypeDef) -> (r: Result<(), RegistryError>)
        ensures
            r is Ok <==> old(self)@.contains_key(def@.name),
            r is Ok ==> final(self)@ == old(self)@.insert(def@.name, def@),
            r is Err ==> final(self)@ == old(self)@ && (r matches Err(RegistryError::TypeNotFound(n)) && n@ == def@.name),
    {
        proof {
            use_type_invariant(&*self);
        }
        match self.find(def.name.as_str()) {
            Some(i) => {
                proof {
                    lemma_defs_map_at(self.defs(), i as int);
                }
                self.put(def);
                Ok(())
            },
            None => Err(RegistryError::TypeNotFound(def.name)),
        }
    }

    /// The names of all registered types, each once, in no particular order.
    pub fn get_type_names(&self) -> (r: Vec<String>)
        ensures
            r@.len() == self@.len(),
            forall|i: int| 0 <= i < r@.len() ==> self@.contains_key(#[trigger] r@[i]@),
            forall|k: Seq<char>| self@.contains_key(k) ==> exists|i: int| 0 <= i < r@.len() && (#[trigger] r@[i]@) == k,
    {
        proof {
            use_type_invariant(self);
        }
        let mut out: Vec<String> = Vec::new();
        let mut i: usize = 0;
        while i < self.types.len()
            invariant
                i <= self.types@.len(),
                self.wf(),
                out@.len() == i,
                forall|j: int| 0 <= j < i ==> (#[trigger] out@[j])@ == self.types@[j].name@,
            decreases self.types.len() - i,
        {
            out.push(self.types[i].name.clone());
            i += 1;
        }
        proof {
            lemma_defs_map_len(self.defs());
            assert forall|j: int| 0 <= j < out@.len() implies self@.contains_key(#[trigger] out@[j]@) by {
                lemma_defs_map_at(self.defs(), j);
            }
            assert forall|k: Seq<char>| self@.contains_key(k) implies exists|j: int| 0 <= j < out@.len() && (#[trigger] out@[j]@) == k by {
                lemma_defs_map_keys(self.defs(), k);
                let j = choose|j: int| 0 <= j < self.defs().len() && self.defs()[j].name == k;
                assert(out@[j]@ == k);
            }
        }
        out
    }

    /// The number of registered types.
    pub fn count(&self) -> (r: usize)
        ensures
            r == self@.len(),
    {
        proof {
            use_type_invariant(self);
        }
        proof {
            lemma_defs_map_len(self.defs());
        }
        self.types.len()
    }

    /// Remove every registered type.
    pub fn clear(&mut self)
        ensures
            final(self)@ == Map::<Seq<char>, TypeDefView>::empty(),
    {
        proof {
            use_type_invariant(&*self);
        }
        self.types = Vec::new();
        assert(self@ =~= Map::<Seq<char>, TypeDefView>::empty());
    }

    /// Take in definitions read from storage, each replacing a definition of
    /// the same name; gives back how many there were.
    pub fn load_from_storage(&mut self, stored: Vec<RelationshipTypeDef>) -> (r: usize)
        ensures
            r == stored@.len(),
            final(self)@ == insert_all(old(self)@, stored@.map_values(|d: RelationshipTypeDef| d@)),
    {
        proof {
            use_type_invariant(&*self);
        }
        let ghost start = self@;
        let ghost sv = stored@.map_values(|d: RelationshipTypeDef| d@);
        let n = stored.len();
        let mut rest = stored;
        let mut i: usize = 0;
        while i < n
            invariant
                i <= n,
                n == sv.len(),
                rest@.len() == n - i,
                forall|j: int| 0 <= j < n - i ==> (#[trigger] rest@[j])@ == sv[i + j],
                self.wf(),
                self@ == insert_all(start, sv.take(i as int)),
            decreases n - i,
        {
            let d = rest.remove(0);
            assert(d@ == sv[i as int]);
            assert(sv.take(i + 1).drop_last() =~= sv.take(i as int));
            self.put(d);
            proof {
                use_type_invariant(&*self);
            }
            i += 1;
        }
        assert(sv.take(n as int) =~= sv);
        n
    }

    /// Seed the registry with the common relationship types; a type whose name
    /// is registered already is left as it is.
    pub fn seed_common_types(&mut self) -> (r: Result<(), RegistryError>)
        ensures
            r is Ok,
            seeded_from(old(self)@, final(self)@),
    {
        proof {
            use_type_invariant(&*self);
        }
        proof {
            lemma_common_names_valid();
            lemma_common_names_distinct();
            reveal_strlit("mentee");
        }
        let ghost c = common_types();
        let ghost start = self@;
        let mut defs: Vec<RelationshipTypeDef> = Vec::new();
        let specs: [(&str, bool, Option<&str>, &str); 10] = [
            ("friendship", true, None, "social"),
            ("rivalry", false, None, "competitive"),
            ("professional", false, None, "work"),
            ("mentorship", false, Some("mentee"), "learning"),
            ("family", true, None, "kinship"),
            ("romance", true, None, "intimate"),
            ("antagonistic", false, None, "hostile"),
            ("neutral", true, None, "neutral"),
            ("alliance", true, None, "collaborative"),
            ("competition", false, None, "competitive"),
        ];
        assert forall|j: int| 0 <= j < 10 implies ((#[trigger] specs@[j]).0@, specs@[j].1, opt_str_view(specs@[j].2), specs@[j].3@) == c[j] by {
        }
        let mut i: usize = 0;
        while i < 10
            invariant
                i <= 10,
                c == common_types(),
                forall|j: int| 0 <= j < 10 ==> ((#[trigger] specs@[j]).0@, specs@[j].1, opt_str_view(specs@[j].2), specs@[j].3@) == c[j],
                forall|j: int| 0 <= j < 10 ==> type_name_error(#[trigger] c[j].0) is None,
                defs@.len() == i,
                forall|j: int| 0 <= j < i ==> is_seeded_def((#[trigger] defs@[j])@, c[j]),
            decreases 10 - i,
        {
            let (name, symmetric, inverse, category) = specs[i];
            assert(type_name_error(c[i as int].0) is None);
            let d = match common_def(name, symmetric, inverse, category) {
                Ok(d) => d,
                Err(e) => {
                    return Err(e);
                },
            };
            defs.push(d);
            i += 1;
        }
        let mut k: usize = 0;
        let mut rest = defs;
        while k < 10
            invariant
                k <= 10,
                c == common_types(),
                rest@.len() == 10 - k,
                forall|j: int| 0 <= j < 10 - k ==> is_seeded_def((#[trigger] rest@[j])@, c[k + j]),
                forall|a: int, b: int| 0 <= a < 10 && 0 <= b < 10 && a != b ==> #[trigger] c[a].0 != #[trigger] c[b].0,
                self.wf(),
                forall|key: Seq<char>|
                    #![trigger self@.contains_key(key)]
                    self@.contains_key(key) <==> start.contains_key(key) || exists|j: int|
                        0 <= j < k && (#[trigger] c[j]).0 == key,
                forall|key: Seq<char>| start.contains_key(key) ==> self@[key] == start[key],
                forall|j: int| 0 <= j < k && !start.contains_key(#[trigger] c[j].0) ==> is_seeded_def(self@[c[j].0], c[j]),
            decreases 10 - k,
        {
            let d = rest.remove(0);
            let ghost dv = d@;
            let ghost n = c[k as int].0;
            assert(is_seeded_def(dv, c[k as int]));
            let ghost before = self@;
            let res = self.register(d);
            proof {
                use_type_invariant(&*self);
                assert(!(dv.inverse matches Some(inv) && is_blank_seq(inv))) by {
                    if let Some(inv) = dv.inverse {
                        reveal_strlit("mentee");
                        assert(inv == "mentee"@);
                        assert(!is_white_char(inv[0]));
                    }
                }
                assert forall|key: Seq<char>|
                    #![trigger self@.contains_key(key)]
                    self@.contains_key(key) <==> start.contains_key(key) || exists|j: int|
                        0 <= j < k + 1 && (#[trigger] c[j]).0 == key by {
                    if key == n {
                        assert(c[k as int].0 == key);
                    } else if exists|j: int| 0 <= j < k + 1 && (#[trigger] c[j]).0 == key {
                        let j = choose|j: int| 0 <= j < k + 1 && (#[trigger] c[j]).0 == key;
                        assert(j < k);
                    }
                }
                assert forall|j: int| 0 <= j < k + 1 && !start.contains_key(#[trigger] c[j].0) implies is_seeded_def(
                    self@[c[j].0],
                    c[j],
                ) by {
                    if j < k {
                        assert(c[j].0 != n);
                    } else {
                        assert(!before.contains_key(n)) by {
                            if before.contains_key(n) {
                                let j2 = choose|j2: int| 0 <= j2 < k && (#[trigger] c[j2]).0 == n;
                                assert(c[j2].0 != c[k as int].0);
                            }
                        }
                    }
                }
            }
            k += 1;
        }
        Ok(())
    }
}

impl Default for RelationshipTypeRegistry {
    fn default() -> (r: Self)
        ensures
            r.wf(),
            r@ == Map::<Seq<char>, TypeDefView>::empty(),
    {
        Self::new()
    }
}

} // verus!

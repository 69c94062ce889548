//! Relationship metadata schema validation.
//!
//! Metadata is checked against a schema written in a subset of JSON Schema:
//! `type`, `required`, `properties`, `items`, `enum`, `minimum`, `maximum`,
//! `minLength` and `maxLength`. The checks run in that order and the first
//! failing one decides the error.

use vstd::prelude::*;
use vstd::utf8::encode_utf8;
use crate::json::{JsonValue, JsonView, NumberRepr, obj_get, field, obj_insert, entries_view, insert_entry};
use crate::text::{str_eq, decimal, usize_to_decimal, u64_to_decimal, join_with};
use crate::time::float_lt;

verus! {

/// Error types for validation operations.
#[derive(Debug, Clone)]
pub enum ValidationError {
    /// The data does not satisfy the schema.
    ValidationFailed(String),
    /// The schema itself is malformed.
    InvalidSchema(String),
    /// A required field is absent from the data.
    MissingRequiredField(String),
    /// The data has another type than the schema asks for.
    TypeMismatch { field: String, expected: String, actual: String },
    /// Something went wrong inside the validator.
    InternalError(String),
}

/// A validation error with its texts as character sequences.
pub enum ValidationErrorView {
    ValidationFailed(Seq<char>),
    InvalidSchema(Seq<char>),
    MissingRequiredField(Seq<char>),
    TypeMismatch { field: Seq<char>, expected: Seq<char>, actual: Seq<char> },
    InternalError(Seq<char>),
}

impl View for ValidationError {
    type V = ValidationErrorView;

    open spec fn view(&self) -> ValidationErrorView {
        match self {
            ValidationError::ValidationFailed(s) => ValidationErrorView::ValidationFailed(s@),
            ValidationError::InvalidSchema(s) => ValidationErrorView::InvalidSchema(s@),
            ValidationError::MissingRequiredField(s) => ValidationErrorView::MissingRequiredField(s@),
            ValidationError::TypeMismatch { field, expected, actual } => ValidationErrorView::TypeMismatch {
                field: field@,
                expected: expected@,
                actual: actual@,
            },
            ValidationError::InternalError(s) => ValidationErrorView::InternalError(s@),
        }
    }
}

/// The message of a validation error.
pub open spec fn validation_error_text(e: ValidationErrorView) -> Seq<char> {
    match e {
        ValidationErrorView::ValidationFailed(s) => "Schema validation failed: "@ + s,
        ValidationErrorView::InvalidSchema(s) => "Invalid schema format: "@ + s,
        ValidationErrorView::MissingRequiredField(s) => "Missing required field: "@ + s,
        ValidationErrorView::TypeMismatch { field, expected, actual } => "Type mismatch for field '"@ + field
            + "': expected "@ + expected + ", got "@ + actual,
        ValidationErrorView::InternalError(s) => "Internal validation error: "@ + s,
    }
}

impl ValidationError {
    /// The human-readable message of this error.
    pub fn to_string(&self) -> (s: String)
        ensures
            s@ == validation_error_text(self@),
    {
        match self {
            ValidationError::ValidationFailed(m) => String::from_str("Schema validation failed: ").concat(m.as_str()),
            ValidationError::InvalidSchema(m) => String::from_str("Invalid schema format: ").concat(m.as_str()),
            ValidationError::MissingRequiredField(m) => String::from_str("Missing required field: ").concat(m.as_str()),
            ValidationError::TypeMismatch { field, expected, actual } => {
                let s = String::from_str("Type mismatch for field '").concat(field.as_str());
                let s = s.concat("': expected ").concat(expected.as_str());
                s.concat(", got ").concat(actual.as_str())
            },
            ValidationError::InternalError(m) => String::from_str("Internal validation error: ").concat(m.as_str()),
        }
    }
}

/// What a check gives back: `None` when the data passes, or the error.
pub open spec fn outcome(r: Result<(), ValidationError>) -> Option<ValidationErrorView> {
    match r {
        Ok(_) => None,
        Err(e) => Some(e@),
    }
}

/// Whether `rs[i]` is the first error among `rs`.
pub open spec fn is_first_error(rs: Seq<Option<ValidationErrorView>>, i: int) -> bool {
    0 <= i < rs.len() && rs[i] is Some && forall|j: int| 0 <= j < i ==> rs[j] is None
}

/// The first error among `rs`, if any.
pub open spec fn first_error(rs: Seq<Option<ValidationErrorView>>) -> Option<ValidationErrorView> {
    if exists|i: int| is_first_error(rs, i) {
        rs[choose|i: int| is_first_error(rs, i)]
    } else {
        None
    }
}

/// `a` if it is an error, else `b`.
pub open spec fn or_else(a: Option<ValidationErrorView>, b: Option<ValidationErrorView>) -> Option<ValidationErrorView> {
    if a is Some { a } else { b }
}

/// The name JSON Schema gives the type of a value.
pub open spec fn json_type_name(v: JsonView) -> Seq<char> {
    match v {
        JsonView::Null => "null"@,
        JsonView::Bool(_) => "boolean"@,
        JsonView::Number(_) => "number"@,
        JsonView::String(_) => "string"@,
        JsonView::Array(_) => "array"@,
        JsonView::Object(_) => "object"@,
    }
}

/// The outcome of checking `data` against a `type` keyword: the names must
/// agree, except that `integer` accepts a number without a fractional part.
pub open spec fn type_check(type_spec: JsonView, data: JsonView) -> Option<ValidationErrorView> {
    match type_spec {
        JsonView::String(expected) => {
            let actual = json_type_name(data);
            if expected == actual {
                None
            } else if expected == "integer"@ && data is Number && data->Number_0.integral {
                None
            } else {
                Some(ValidationErrorView::TypeMismatch { field: "value"@, expected, actual })
            }
        },
        _ => Some(ValidationErrorView::InvalidSchema("Type must be a string"@)),
    }
}

/// The properties a schema declares: the entries of its `properties` object.
pub open spec fn schema_properties(schema: JsonView) -> Seq<(Seq<char>, JsonView)> {
    match field(schema, "properties"@) {
        Some(JsonView::Object(props)) => props,
        _ => Seq::empty(),
    }
}

/// An entry that an object holds lies inside it.
pub proof fn lemma_obj_get_entry(entries: Seq<(Seq<char>, JsonView)>, key: Seq<char>)
    ensures
        obj_get(entries, key) matches Some(v) ==> exists|k: int|
            0 <= k < entries.len() && entries[k].0 == key && entries[k].1 == v,
    decreases entries.len(),
{
    if entries.len() > 0 && entries[0].0 != key {
        lemma_obj_get_entry(entries.drop_first(), key);
        if let Some(v) = obj_get(entries, key) {
            let rest = entries.drop_first();
            let k = choose|k: int| 0 <= k < rest.len() && rest[k].0 == key && rest[k].1 == v;
            assert(entries[k + 1] == rest[k]);
        }
    }
}

/// A field of a value is smaller than the value.
pub proof fn lemma_field_decreases(v: JsonView, key: Seq<char>)
    ensures
        field(v, key) matches Some(f) ==> decreases_to!(v => f),
{
    if let JsonView::Object(entries) = v {
        lemma_obj_get_entry(entries, key);
        if let Some(f) = obj_get(entries, key) {
            let k = choose|k: int| 0 <= k < entries.len() && entries[k].0 == key && entries[k].1 == f;
            assert(decreases_to!(v => entries));
            assert(decreases_to!(entries => entries[k]));
            assert(decreases_to!(entries[k] => entries[k].1));
        }
    }
}

/// The schema of a declared property is smaller than the schema declaring it.
pub proof fn lemma_property_decreases(schema: JsonView, i: int)
    requires
        0 <= i < schema_properties(schema).len(),
    ensures
        decreases_to!(schema => schema_properties(schema)[i].1),
{
    lemma_field_decreases(schema, "properties"@);
    let props = schema_properties(schema);
    let pv = field(schema, "properties"@)->0;
    assert(decreases_to!(pv => props));
    assert(decreases_to!(props => props[i]));
    assert(decreases_to!(props[i] => props[i].1));
}

/// The first error decides.
pub proof fn lemma_first_error_at(rs: Seq<Option<ValidationErrorView>>, i: int)
    requires
        is_first_error(rs, i),
    ensures
        first_error(rs) == rs[i],
{
    let k = choose|k: int| is_first_error(rs, k);
    if k < i {
        assert(rs[k] is None);
    } else if k > i {
        assert(rs[i] is None);
    }
}

/// With no error there is no first error.
pub proof fn lemma_no_error(rs: Seq<Option<ValidationErrorView>>)
    requires
        forall|j: int| 0 <= j < rs.len() ==> rs[j] is None,
    ensures
        first_error(rs) is None,
{
}

/// The outcome of checking `data` against `schema`; the checks run in order
/// (`type`, `required`, `properties`, `items`, `enum`, `minimum`/`maximum`,
/// `minLength`/`maxLength`) and the first failing one decides.
pub open spec fn schema_check(schema: JsonView, data: JsonView) -> Option<ValidationErrorView>
    decreases schema, 1int,
{
    match schema {
        JsonView::Object(entries) => or_else(
            match obj_get(entries, "type"@) {
                Some(t) => type_check(t, data),
                None => None,
            },
            or_else(
                required_check(entries, data),
                or_else(
                    first_error(property_outcomes(schema, data)),
                    or_else(
                        first_error(item_outcomes(schema, data)),
                        or_else(
                            enum_check(entries, data),
                            or_else(range_check(entries, data), length_check(entries, data)),
                        ),
                    ),
                ),
            ),
        ),
        _ => Some(ValidationErrorView::InvalidSchema("Schema must be an object"@)),
    }
}

/// The outcome of each declared property that `data` holds, in declaration
/// order (nothing when `data` is not an object).
pub open spec fn property_outcomes(schema: JsonView, data: JsonView) -> Seq<Option<ValidationErrorView>>
    decreases schema, 0int,
{
    let props = schema_properties(schema);
    match data {
        JsonView::Object(d) => Seq::new(
            props.len(),
            |i: int|
                {
                    if 0 <= i < props.len() {
                        proof {
                            lemma_property_decreases(schema, i);
                        }
                        match obj_get(d, props[i].0) {
                            Some(pd) => schema_check(props[i].1, pd),
                            None => None,
                        }
                    } else {
                        None
                    }
                },
        ),
        _ => Seq::empty(),
    }
}

/// The outcome of each element of `data` against the schema's `items`
/// (nothing when there is no `items` or `data` is not an array).
pub open spec fn item_outcomes(schema: JsonView, data: JsonView) -> Seq<Option<ValidationErrorView>>
    decreases schema, 0int,
{
    match field(schema, "items"@) {
        Some(items) => match data {
            JsonView::Array(xs) => Seq::new(
                xs.len(),
                |i: int|
                    {
                        proof {
                            lemma_field_decreases(schema, "items"@);
                        }
                        schema_check(items, xs[i])
                    },
            ),
            _ => Seq::empty(),
        },
        None => Seq::empty(),
    }
}

/// Whether the required field `f` is missing from the object entries `d`.
pub open spec fn missing_field(f: JsonView, d: Seq<(Seq<char>, JsonView)>) -> Option<ValidationErrorView> {
    match f {
        JsonView::String(name) => if obj_get(d, name) is None {
            Some(ValidationErrorView::MissingRequiredField(name))
        } else {
            None
        },
        _ => None,
    }
}

/// The outcome of each entry of a `required` list.
pub open spec fn required_outcomes(req: Seq<JsonView>, d: Seq<(Seq<char>, JsonView)>) -> Seq<Option<ValidationErrorView>> {
    Seq::new(req.len(), |i: int| missing_field(req[i], d))
}

/// The outcome of the `required` keyword.
pub open spec fn required_check(entries: Seq<(Seq<char>, JsonView)>, data: JsonView) -> Option<ValidationErrorView> {
    match obj_get(entries, "required"@) {
        Some(JsonView::Array(req)) => match data {
            JsonView::Object(d) => first_error(required_outcomes(req, d)),
            _ => Some(ValidationErrorView::ValidationFailed("Required fields specified but data is not an object"@)),
        },
        _ => None,
    }
}

/// The strings among `vals`, in order.
pub open spec fn string_items(vals: Seq<JsonView>) -> Seq<Seq<char>>
    decreases vals.len(),
{
    if vals.len() == 0 {
        Seq::empty()
    } else {
        let rest = string_items(vals.drop_last());
        match vals.last() {
            JsonView::String(s) => rest.push(s),
            _ => rest,
        }
    }
}

/// The outcome of the `enum` keyword: the data must equal one of the values.
pub open spec fn enum_check(entries: Seq<(Seq<char>, JsonView)>, data: JsonView) -> Option<ValidationErrorView> {
    match obj_get(entries, "enum"@) {
        Some(JsonView::Array(vals)) => if vals.contains(data) {
            None
        } else {
            Some(ValidationErrorView::ValidationFailed("Value must be one of: "@ + join_with(string_items(vals), ", "@)))
        },
        _ => None,
    }
}

/// The outcome of the `minimum` and `maximum` keywords on a number.
pub open spec fn range_check(entries: Seq<(Seq<char>, JsonView)>, data: JsonView) -> Option<ValidationErrorView> {
    match data {
        JsonView::Number(dn) => or_else(
            match obj_get(entries, "minimum"@) {
                Some(JsonView::Number(mn)) => if float_lt(dn.value, mn.value) {
                    Some(ValidationErrorView::ValidationFailed("Value "@ + dn.text + " is less than minimum "@ + mn.text))
                } else {
                    None
                },
                _ => None,
            },
            match obj_get(entries, "maximum"@) {
                Some(JsonView::Number(mx)) => if float_lt(mx.value, dn.value) {
                    Some(ValidationErrorView::ValidationFailed("Value "@ + dn.text + " is greater than maximum "@ + mx.text))
                } else {
                    None
                },
                _ => None,
            },
        ),
        _ => None,
    }
}

/// The length in bytes of the UTF-8 encoding of `s`, as `str::len` reports it.
pub open spec fn byte_len(s: Seq<char>) -> usize {
    encode_utf8(s).len() as usize
}

/// The limit a length keyword sets: a non-negative integer.
pub open spec fn length_limit(v: Option<JsonView>) -> Option<u64> {
    match v {
        Some(JsonView::Number(n)) => match n.repr {
            NumberRepr::PosInt(k) => Some(k),
            _ => None,
        },
        _ => None,
    }
}

/// The outcome of the `minLength` and `maxLength` keywords on a string.
pub open spec fn length_check(entries: Seq<(Seq<char>, JsonView)>, data: JsonView) -> Option<ValidationErrorView> {
    match data {
        JsonView::String(s) => {
            let n = byte_len(s);
            or_else(
                match length_limit(obj_get(entries, "minLength"@)) {
                    Some(k) => if n < k {
                        Some(ValidationErrorView::ValidationFailed("String length "@ + decimal(n as nat)
                            + " is less than minimum "@ + decimal(k as nat)))
                    } else {
                        None
                    },
                    None => None,
                },
                match length_limit(obj_get(entries, "maxLength"@)) {
                    Some(k) => if n > k {
                        Some(ValidationErrorView::ValidationFailed("String length "@ + decimal(n as nat)
                            + " exceeds maximum "@ + decimal(k as nat)))
                    } else {
                        None
                    },
                    None => None,
                },
            )
        },
        _ => None,
    }
}

/// The outcome of validating `data` against `schema`: a `null` schema accepts
/// everything.
pub open spec fn validation_outcome(schema: JsonView, data: JsonView) -> Option<ValidationErrorView> {
    if schema is Null {
        None
    } else {
        schema_check(schema, data)
    }
}

/// Whether `t` names one of the types a schema may ask for.
pub open spec fn is_schema_type_name(t: Seq<char>) -> bool {
    t == "null"@ || t == "boolean"@ || t == "object"@ || t == "array"@ || t == "number"@ || t == "string"@
        || t == "integer"@
}

/// The error `parse_schema` finds in a schema definition, if any: it must be
/// an object or `null`, and a string `type` in it must name a known type.
pub open spec fn schema_definition_error(v: JsonView) -> Option<ValidationErrorView> {
    if !(v is Object) && !(v is Null) {
        Some(ValidationErrorView::InvalidSchema("Schema must be an object or null"@))
    } else {
        match field(v, "type"@) {
            Some(JsonView::String(t)) => if is_schema_type_name(t) {
                None
            } else {
                Some(ValidationErrorView::InvalidSchema("Invalid type: "@ + t))
            },
            _ => None,
        }
    }
}

/// Whether `t` names a type that `simple_schema` builds a schema for.
pub open spec fn is_field_type_name(t: Seq<char>) -> bool {
    t == "string"@ || t == "number"@ || t == "integer"@ || t == "boolean"@ || t == "array"@ || t == "object"@
}

/// The schema `{"type": t}`.
pub open spec fn type_schema(t: Seq<char>) -> JsonView {
    JsonView::Object(seq![("type"@, JsonView::String(t))])
}

/// The error for a field type that has no simple schema.
pub open spec fn unknown_type_error(t: Seq<char>) -> ValidationErrorView {
    ValidationErrorView::InvalidSchema("Unknown field type: "@ + t)
}

/// The outcome of each property's type, in order.
pub open spec fn property_type_outcomes(props: Seq<(&str, &str)>) -> Seq<Option<ValidationErrorView>> {
    Seq::new(
        props.len(),
        |i: int|
            if is_field_type_name(props[i].1@) {
                None
            } else {
                Some(unknown_type_error(props[i].1@))
            },
    )
}

/// The `properties` object built from `(name, type)` pairs: each name set in
/// turn to the schema of its type, a later pair replacing an earlier one.
pub open spec fn property_schemas(props: Seq<(&str, &str)>) -> Seq<(Seq<char>, JsonView)>
    decreases props.len(),
{
    if props.len() == 0 {
        Seq::empty()
    } else {
        obj_insert(property_schemas(props.drop_last()), props.last().0@, type_schema(props.last().1@))
    }
}

/// The names of an optional list of required fields.
pub open spec fn required_view(required: Option<Vec<&str>>) -> Option<Seq<&str>> {
    match required {
        Some(q) => Some(q@),
        None => None,
    }
}

/// The schema of an object with the given properties and required names;
/// entries in key order.
pub open spec fn object_schema_view(props: Seq<(&str, &str)>, required: Option<Seq<&str>>) -> JsonView {
    JsonView::Object(
        seq![("properties"@, JsonView::Object(property_schemas(props)))] + match required {
            Some(r) => seq![("required"@, JsonView::Array(Seq::new(r.len(), |i: int| JsonView::String(r[i]@))))],
            None => Seq::empty(),
        } + seq![("type"@, JsonView::String("object"@))],
    )
}

/// No schema means no validation: a `null` schema accepts every value.
pub proof fn lemma_null_schema_accepts(data: JsonView)
    ensures
        validation_outcome(JsonView::Null, data) is None,
{
}

/// The keywords the validator reads.
proof fn lemma_keywords()
    ensures
        "type"@ =~= seq!['t', 'y', 'p', 'e'],
        "required"@ =~= seq!['r', 'e', 'q', 'u', 'i', 'r', 'e', 'd'],
        "properties"@ =~= seq!['p', 'r', 'o', 'p', 'e', 'r', 't', 'i', 'e', 's'],
        "items"@ =~= seq!['i', 't', 'e', 'm', 's'],
        "enum"@ =~= seq!['e', 'n', 'u', 'm'],
        "minimum"@ =~= seq!['m', 'i', 'n', 'i', 'm', 'u', 'm'],
        "maximum"@ =~= seq!['m', 'a', 'x', 'i', 'm', 'u', 'm'],
        "minLength"@ =~= seq!['m', 'i', 'n', 'L', 'e', 'n', 'g', 't', 'h'],
        "maxLength"@ =~= seq!['m', 'a', 'x', 'L', 'e', 'n', 'g', 't', 'h'],
{
    reveal_strlit("type");
    reveal_strlit("required");
    reveal_strlit("properties");
    reveal_strlit("items");
    reveal_strlit("enum");
    reveal_strlit("minimum");
    reveal_strlit("maximum");
    reveal_strlit("minLength");
    reveal_strlit("maxLength");
}

/// A schema with the single keyword `key` checks nothing but that keyword:
/// every other keyword is absent from it.
proof fn lemma_single_keyword(key: Seq<char>, v: JsonView, other: Seq<char>)
    requires
        other != key,
    ensures
        obj_get(seq![(key, v)], other) is None,
        obj_get(seq![(key, v)], key) == Some(v),
{
    let s = seq![(key, v)];
    assert(s.drop_first() =~= Seq::<(Seq<char>, JsonView)>::empty());
    assert(obj_get(s.drop_first(), other) is None);
    assert(s[0].0 == key);
}

/// The schema `simple_schema` builds for a type accepts exactly the values
/// of that type (and, for `integer`, the numbers without a fractional part).
pub proof fn lemma_simple_schema_checks_type(t: Seq<char>, data: JsonView)
    ensures
        schema_check(type_schema(t), data) == type_check(JsonView::String(t), data),
{
    lemma_keywords();
    let v = JsonView::String(t);
    lemma_single_keyword("type"@, v, "required"@);
    lemma_single_keyword("type"@, v, "properties"@);
    lemma_single_keyword("type"@, v, "items"@);
    lemma_single_keyword("type"@, v, "enum"@);
    lemma_single_keyword("type"@, v, "minimum"@);
    lemma_single_keyword("type"@, v, "maximum"@);
    lemma_single_keyword("type"@, v, "minLength"@);
    lemma_single_keyword("type"@, v, "maxLength"@);
    let schema = type_schema(t);
    assert(schema_properties(schema).len() == 0);
    assert(first_error(property_outcomes(schema, data)) is None);
    assert(first_error(item_outcomes(schema, data)) is None);
}

/// A schema with only an `enum` list accepts exactly the values in the list.
pub proof fn lemma_enum_schema_membership(vals: Seq<JsonView>, data: JsonView)
    ensures
        schema_check(JsonView::Object(seq![("enum"@, JsonView::Array(vals))]), data) is None <==> vals.contains(data),
{
    lemma_keywords();
    let v = JsonView::Array(vals);
    lemma_single_keyword("enum"@, v, "type"@);
    lemma_single_keyword("enum"@, v, "required"@);
    lemma_single_keyword("enum"@, v, "properties"@);
    lemma_single_keyword("enum"@, v, "items"@);
    lemma_single_keyword("enum"@, v, "minimum"@);
    lemma_single_keyword("enum"@, v, "maximum"@);
    lemma_single_keyword("enum"@, v, "minLength"@);
    lemma_single_keyword("enum"@, v, "maxLength"@);
    let schema = JsonView::Object(seq![("enum"@, v)]);
    assert(schema_properties(schema).len() == 0);
    assert(first_error(property_outcomes(schema, data)) is None);
    assert(first_error(item_outcomes(schema, data)) is None);
}

/// Where some outcome is an error, there is a first error.
proof fn lemma_some_error(rs: Seq<Option<ValidationErrorView>>, j: int)
    requires
        0 <= j < rs.len(),
        rs[j] is Some,
    ensures
        first_error(rs) is Some,
    decreases j,
{
    if exists|k: int| 0 <= k < j && rs[k] is Some {
        let k = choose|k: int| 0 <= k < j && rs[k] is Some;
        lemma_some_error(rs, k);
    } else {
        assert(is_first_error(rs, j));
        lemma_first_error_at(rs, j);
    }
}

/// Validating an array against a schema with `items` checks every element:
/// when any element, at any position, fails the `items` schema, the array
/// fails the schema.
pub proof fn lemma_items_check_every_element(schema: JsonView, items: JsonView, xs: Seq<JsonView>, k: int)
    requires
        field(schema, "items"@) == Some(items),
        0 <= k < xs.len(),
        schema_check(items, xs[k]) is Some,
    ensures
        schema_check(schema, JsonView::Array(xs)) is Some,
        validation_outcome(schema, JsonView::Array(xs)) is Some,
{
    let rs = item_outcomes(schema, JsonView::Array(xs));
    assert(rs.len() == xs.len());
    assert(rs[k] == schema_check(items, xs[k]));
    lemma_some_error(rs, k);
}

/// An array passes a schema that has only `items` exactly when every element
/// passes the `items` schema.
pub proof fn lemma_items_only_schema(items: JsonView, xs: Seq<JsonView>)
    ensures
        schema_check(JsonView::Object(seq![("items"@, items)]), JsonView::Array(xs)) is None <==> forall|k: int|
            0 <= k < xs.len() ==> schema_check(items, #[trigger] xs[k]) is None,
{
    lemma_keywords();
    let schema = JsonView::Object(seq![("items"@, items)]);
    lemma_single_keyword("items"@, items, "type"@);
    lemma_single_keyword("items"@, items, "required"@);
    lemma_single_keyword("items"@, items, "properties"@);
    lemma_single_keyword("items"@, items, "enum"@);
    lemma_single_keyword("items"@, items, "minimum"@);
    lemma_single_keyword("items"@, items, "maximum"@);
    lemma_single_keyword("items"@, items, "minLength"@);
    lemma_single_keyword("items"@, items, "maxLength"@);
    let data = JsonView::Array(xs);
    assert(schema_properties(schema).len() == 0);
    assert(first_error(property_outcomes(schema, data)) is None);
    let rs = item_outcomes(schema, data);
    assert(rs.len() == xs.len());
    if forall|k: int| 0 <= k < xs.len() ==> schema_check(items, #[trigger] xs[k]) is None {
        assert forall|j: int| 0 <= j < rs.len() implies rs[j] is None by {
            assert(rs[j] == schema_check(items, xs[j]));
        }
        lemma_no_error(rs);
    } else {
        let k = choose|k: int| 0 <= k < xs.len() && !(schema_check(items, #[trigger] xs[k]) is None);
        lemma_items_check_every_element(schema, items, xs, k);
    }
}

/// The name of the type of `data` (`"null"`, `"boolean"`, ...).
fn type_name_of(data: &JsonValue) -> (s: &'static str)
    ensures
        s@ == json_type_name(data@),
{
    match data {
        JsonValue::Null => "null",
        JsonValue::Bool(_) => "boolean",
        JsonValue::Number(_) => "number",
        JsonValue::String(_) => "string",
        JsonValue::Array(_) => "array",
        JsonValue::Object(_) => "object",
    }
}

/// Schema validator for relationship metadata.
pub struct SchemaValidator;

impl SchemaValidator {
    /// Validate that data matches the expected type.
    fn validate_type(type_spec: &JsonValue, data: &JsonValue) -> (r: Result<(), ValidationError>)
        ensures
            outcome(r) == type_check(type_spec@, data@),
    {
        let expected = match type_spec.as_str() {
            Some(s) => s,
            None => {
                return Err(ValidationError::InvalidSchema(String::from_str("Type must be a string")));
            },
        };
        let actual = type_name_of(data);
        if str_eq(expected, actual) {
            Ok(())
        } else {
            if str_eq(expected, "integer") {
                if let JsonValue::Number(n) = data {
                    if n.integral {
                        return Ok(());
                    }
                }
            }
            Err(
                ValidationError::TypeMismatch {
                    field: String::from_str("value"),
                    expected: String::from_str(expected),
                    actual: String::from_str(actual),
                },
            )
        }
    }

    /// Check the `required` keyword of an object schema.
    fn check_required(schema: &JsonValue, data: &JsonValue) -> (r: Result<(), ValidationError>)
        requires
            schema@ is Object,
        ensures
            outcome(r) == required_check(schema@->Object_0, data@),
    {
        let rv = match schema.get("required") {
            Some(rv) => rv,
            None => {
                return Ok(());
            },
        };
        let req = match rv {
            JsonValue::Array(req) => req,
            _ => {
                return Ok(());
            },
        };
        if !data.is_object() {
            return Err(
                ValidationError::ValidationFailed(
                    String::from_str("Required fields specified but data is not an object"),
                ),
            );
        }
        let ghost rs = required_outcomes(rv@->Array_0, data@->Object_0);
        let mut i: usize = 0;
        while i < req.len()
            invariant
                i <= req.len(),
                *rv == JsonValue::Array(*req),
                schema@ is Object,
                field(schema@, "required"@) == Some(rv@),
                rv@ == JsonView::Array(rv@->Array_0),
                rs == required_outcomes(rv@->Array_0, data@->Object_0),
                rs.len() == req.len(),
                data@ is Object,
                forall|j: int| 0 <= j < i ==> rs[j] is None,
            decreases req.len() - i,
        {
            assert(rv@->Array_0[i as int] == req[i as int]@);
            if let Some(name) = req[i].as_str() {
                if data.get(name).is_none() {
                    assert(rs[i as int] == missing_field(rv@->Array_0[i as int], data@->Object_0));
                    proof {
                        lemma_first_error_at(rs, i as int);
                    }
                    return Err(ValidationError::MissingRequiredField(String::from_str(name)));
                }
            }
            i += 1;
        }
        proof {
            lemma_no_error(rs);
        }
        Ok(())
    }

    /// Check the `enum` keyword of an object schema.
    fn check_enum(schema: &JsonValue, data: &JsonValue) -> (r: Result<(), ValidationError>)
        requires
            schema@ is Object,
        ensures
            outcome(r) == enum_check(schema@->Object_0, data@),
    {
        let ev = match schema.get("enum") {
            Some(ev) => ev,
            None => {
                return Ok(());
            },
        };
        let vals = match ev {
            JsonValue::Array(vals) => vals,
            _ => {
                return Ok(());
            },
        };
        let ghost vv = ev@->Array_0;
        let mut i: usize = 0;
        while i < vals.len()
            invariant
                i <= vals.len(),
                *ev == JsonValue::Array(*vals),
                vv == ev@->Array_0,
                ev@ == JsonView::Array(vv),
                schema@ is Object,
                field(schema@, "enum"@) == Some(ev@),
                vv.len() == vals.len(),
                forall|j: int| 0 <= j < i ==> vv[j] != data@,
            decreases vals.len() - i,
        {
            assert(vv[i as int] == vals[i as int]@);
            if vals[i].equals(data) {
                assert(vv.contains(data@));
                return Ok(());
            }
            i += 1;
        }
        assert(!vv.contains(data@));
        let sep = ", ";
        let mut msg = String::new();
        let mut count: usize = 0;
        let mut i: usize = 0;
        while i < vals.len()
            invariant
                i <= vals.len(),
                *ev == JsonValue::Array(*vals),
                vv == ev@->Array_0,
                vv.len() == vals.len(),
                count <= i,
                count == string_items(vv.take(i as int)).len(),
                msg@ == join_with(string_items(vv.take(i as int)), sep@),
            decreases vals.len() - i,
        {
            let ghost before = string_items(vv.take(i as int));
            assert(vv.take(i + 1).drop_last() =~= vv.take(i as int));
            assert(vv.take(i + 1).last() == vals[i as int]@);
            if let Some(s) = vals[i].as_str() {
                assert(string_items(vv.take(i + 1)) == before.push(s@));
                assert(before.push(s@).drop_last() =~= before);
                if count > 0 {
                    msg.append(sep);
                } else {
                    assert(msg@ =~= Seq::<char>::empty());
                }
                msg.append(s);
                count += 1;
            }
            i += 1;
        }
        assert(vv.take(vals.len() as int) =~= vv);
        Err(ValidationError::ValidationFailed(String::from_str("Value must be one of: ").concat(msg.as_str())))
    }

    /// Check the `minimum` and `maximum` keywords of an object schema.
    fn check_range(schema: &JsonValue, data: &JsonValue) -> (r: Result<(), ValidationError>)
        requires
            schema@ is Object,
        ensures
            outcome(r) == range_check(schema@->Object_0, data@),
    {
        let dn = match data {
            JsonValue::Number(dn) => dn,
            _ => {
                return Ok(());
            },
        };
        if let Some(mv) = schema.get("minimum") {
            if let JsonValue::Number(mn) = mv {
                if dn.value.lt(&mn.value) {
                    let m = String::from_str("Value ").concat(dn.text.as_str());
                    let m = m.concat(" is less than minimum ").concat(mn.text.as_str());
                    return Err(ValidationError::ValidationFailed(m));
                }
            }
        }
        if let Some(mv) = schema.get("maximum") {
            if let JsonValue::Number(mx) = mv {
                if mx.value.lt(&dn.value) {
                    let m = String::from_str("Value ").concat(dn.text.as_str());
                    let m = m.concat(" is greater than maximum ").concat(mx.text.as_str());
                    return Err(ValidationError::ValidationFailed(m));
                }
            }
        }
        Ok(())
    }

    /// The limit a length keyword sets, if it is a non-negative integer.
    fn length_limit_of(v: Option<&JsonValue>) -> (r: Option<u64>)
        ensures
            r == length_limit(
                match v {
                    Some(x) => Some(x@),
                    None => None,
                },
            ),
    {
        match v {
            Some(JsonValue::Number(n)) => match n.repr {
                NumberRepr::PosInt(k) => Some(k),
                _ => None,
            },
            _ => None,
        }
    }

    /// Check the `minLength` and `maxLength` keywords of an object schema.
    fn check_length(schema: &JsonValue, data: &JsonValue) -> (r: Result<(), ValidationError>)
        requires
            schema@ is Object,
        ensures
            outcome(r) == length_check(schema@->Object_0, data@),
    {
        let s = match data {
            JsonValue::String(s) => s,
            _ => {
                return Ok(());
            },
        };
        let n = s.as_str().len();
        assert(n == byte_len(s@));
        if let Some(k) = Self::length_limit_of(schema.get("minLength")) {
            if (n as u64) < k {
                let m = String::from_str("String length ").concat(usize_to_decimal(n).as_str());
                let m = m.concat(" is less than minimum ").concat(u64_to_decimal(k).as_str());
                return Err(ValidationError::ValidationFailed(m));
            }
        }
        if let Some(k) = Self::length_limit_of(schema.get("maxLength")) {
            if (n as u64) > k {
                let m = String::from_str("String length ").concat(usize_to_decimal(n).as_str());
                let m = m.concat(" exceeds maximum ").concat(u64_to_decimal(k).as_str());
                return Err(ValidationError::ValidationFailed(m));
            }
        }
        Ok(())
    }

    /// Validate data against a JSON Schema. A `null` schema accepts everything.
    pub fn validate(schema: &JsonValue, data: &JsonValue) -> (r: Result<(), ValidationError>)
        ensures
            outcome(r) == validation_outcome(schema@, data@),
    {
        if schema.is_null() {
            return Ok(());
        }
        Self::validate_against_schema(schema, data)
    }

    /// Validate a value against its schema definition.
    fn validate_against_schema(schema: &JsonValue, data: &JsonValue) -> (r: Result<(), ValidationError>)
        ensures
            outcome(r) == schema_check(schema@, data@),
        decreases schema@,
    {
        if !schema.is_object() {
            return Err(ValidationError::InvalidSchema(String::from_str("Schema must be an object")));
        }
        if let Some(t) = schema.get("type") {
            let r = Self::validate_type(t, data);
            if r.is_err() {
                return r;
            }
        }
        let r = Self::check_required(schema, data);
        if r.is_err() {
            return r;
        }
        let ghost entries = schema@->Object_0;
        let ghost type_outcome = match obj_get(entries, "type"@) {
            Some(t) => type_check(t, data@),
            None => None,
        };
        assert(type_outcome is None);
        if let Some(p) = schema.get("properties") {
            if let JsonValue::Object(pv) = p {
                if data.is_object() {
                    let ghost rs = property_outcomes(schema@, data@);
                    let ghost props = schema_properties(schema@);
                    assert(props == p@->Object_0);
                    let mut i: usize = 0;
                    while i < pv.len()
                        invariant
                            i <= pv.len(),
                            *p == JsonValue::Object(*pv),
                            props == p@->Object_0,
                            props == schema_properties(schema@),
                            rs == property_outcomes(schema@, data@),
                            rs.len() == pv.len(),
                            data@ is Object,
                            schema@ == JsonView::Object(entries),
                            type_outcome is None,
                            type_outcome == match obj_get(entries, "type"@) {
                                Some(t) => type_check(t, data@),
                                None => None,
                            },
                            required_check(entries, data@) is None,
                            forall|j: int| 0 <= j < i ==> rs[j] is None,
                        decreases pv.len() - i,
                    {
                        assert(props[i as int] == (pv[i as int].0@, pv[i as int].1@));
                        if let Some(pd) = data.get(pv[i].0.as_str()) {
                            proof {
                                lemma_property_decreases(schema@, i as int);
                            }
                            let r = Self::validate_against_schema(&pv[i].1, pd);
                            if r.is_err() {
                                proof {
                                    lemma_first_error_at(rs, i as int);
                                }
                                return r;
                            }
                        }
                        i += 1;
                    }
                    proof {
                        lemma_no_error(rs);
                    }
                }
            }
        }
        assert(first_error(property_outcomes(schema@, data@)) is None);
        if let Some(items) = schema.get("items") {
            if let JsonValue::Array(xs) = data {
                let ghost rs = item_outcomes(schema@, data@);
                let mut i: usize = 0;
                while i < xs.len()
                    invariant
                        i <= xs.len(),
                        *data == JsonValue::Array(*xs),
                        field(schema@, "items"@) == Some(items@),
                        rs == item_outcomes(schema@, data@),
                        rs.len() == xs.len(),
                        schema@ == JsonView::Object(entries),
                        type_outcome is None,
                        type_outcome == match obj_get(entries, "type"@) {
                            Some(t) => type_check(t, data@),
                            None => None,
                        },
                        required_check(entries, data@) is None,
                        first_error(property_outcomes(schema@, data@)) is None,
                        forall|j: int| 0 <= j < i ==> rs[j] is None,
                    decreases xs.len() - i,
                {
                    assert(data@->Array_0[i as int] == xs[i as int]@);
                    proof {
                        lemma_field_decreases(schema@, "items"@);
                    }
                    let r = Self::validate_against_schema(items, &xs[i]);
                    if r.is_err() {
                        proof {
                            lemma_first_error_at(rs, i as int);
                        }
                        return r;
                    }
                    i += 1;
                }
                proof {
                    lemma_no_error(rs);
                }
            }
        }
        assert(first_error(item_outcomes(schema@, data@)) is None);
        let r = Self::check_enum(schema, data);
        if r.is_err() {
            return r;
        }
        let r = Self::check_range(schema, data);
        if r.is_err() {
            return r;
        }
        Self::check_length(schema, data)
    }

    /// Parse and validate a schema definition: it must be an object or `null`,
    /// and a string `type` in it must name a known type.
    pub fn parse_schema(schema_value: &JsonValue) -> (r: Result<JsonValue, ValidationError>)
        ensures
            match r {
                Ok(v) => schema_definition_error(schema_value@) is None && v@ == schema_value@,
                Err(e) => schema_definition_error(schema_value@) == Some(e@),
            },
    {
        if !schema_value.is_object() && !schema_value.is_null() {
            return Err(ValidationError::InvalidSchema(String::from_str("Schema must be an object or null")));
        }
        if let Some(t) = schema_value.get("type") {
            if let Some(ts) = t.as_str() {
                if !(str_eq(ts, "null") || str_eq(ts, "boolean") || str_eq(ts, "object") || str_eq(ts, "array")
                    || str_eq(ts, "number") || str_eq(ts, "string") || str_eq(ts, "integer")) {
                    return Err(ValidationError::InvalidSchema(String::from_str("Invalid type: ").concat(ts)));
                }
            }
        }
        Ok(schema_value.clone())
    }

    /// Create a simple schema `{"type": field_type}` for a single field.
    pub fn simple_schema(field_type: &str) -> (r: Result<JsonValue, ValidationError>)
        ensures
            is_field_type_name(field_type@) ==> (r matches Ok(v) && v@ == type_schema(field_type@)),
            !is_field_type_name(field_type@) ==> (r matches Err(e) && e@ == unknown_type_error(field_type@)),
    {
        if str_eq(field_type, "string") || str_eq(field_type, "number") || str_eq(field_type, "integer")
            || str_eq(field_type, "boolean") || str_eq(field_type, "array") || str_eq(field_type, "object") {
            let key = String::from_str("type");
            let val = JsonValue::String(String::from_str(field_type));
            assert(val@ == JsonView::String(field_type@));
            let mut entries: Vec<(String, JsonValue)> = Vec::new();
            entries.push((key, val));
            let v = JsonValue::Object(entries);
            assert(v@->Object_0 =~= seq![("type"@, JsonView::String(field_type@))]) by {
                assert(v@->Object_0[0] == (entries@[0].0@, entries@[0].1@));
            }
            Ok(v)
        } else {
            Err(ValidationError::InvalidSchema(String::from_str("Unknown field type: ").concat(field_type)))
        }
    }

    /// Create a schema for an object with the given `(name, type)` properties
    /// and, optionally, required field names. The first property whose type has
    /// no simple schema makes it fail.
    pub fn object_schema(properties: Vec<(&str, &str)>, required: Option<Vec<&str>>) -> (r: Result<
        JsonValue,
        ValidationError,
    >)
        ensures
            match r {
                Ok(v) => first_error(property_type_outcomes(properties@)) is None && v@ == object_schema_view(
                    properties@,
                    required_view(required),
                ),
                Err(e) => first_error(property_type_outcomes(properties@)) == Some(e@),
            },
    {
        let ghost rs = property_type_outcomes(properties@);
        let mut props: Vec<(String, JsonValue)> = Vec::new();
        let mut i: usize = 0;
        while i < properties.len()
            invariant
                i <= properties.len(),
                rs == property_type_outcomes(properties@),
                forall|j: int| 0 <= j < i ==> rs[j] is None,
                entries_view(props@) == property_schemas(properties@.take(i as int)),
            decreases properties.len() - i,
        {
            let (name, field_type) = properties[i];
            let field_schema = match Self::simple_schema(field_type) {
                Ok(v) => v,
                Err(e) => {
                    proof {
                        lemma_first_error_at(rs, i as int);
                    }
                    return Err(e);
                },
            };
            assert(properties@.take(i + 1).drop_last() =~= properties@.take(i as int));
            insert_entry(&mut props, name, field_schema);
            i += 1;
        }
        proof {
            lemma_no_error(rs);
            assert(properties@.take(properties@.len() as int) =~= properties@);
        }
        let props_value = JsonValue::Object(props);
        assert(props_value@->Object_0 =~= entries_view(props@));
        let mut entries: Vec<(String, JsonValue)> = Vec::new();
        entries.push((String::from_str("properties"), props_value));
        let ghost req_view = required_view(required);
        match required {
            Some(req) => {
                let mut items: Vec<JsonValue> = Vec::new();
                let mut k: usize = 0;
                while k < req.len()
                    invariant
                        k <= req.len(),
                        items@.len() == k,
                        forall|j: int| 0 <= j < k ==> (#[trigger] items@[j])@ == JsonView::String(req@[j]@),
                    decreases req.len() - k,
                {
                    items.push(JsonValue::String(String::from_str(req[k])));
                    k += 1;
                }
                let arr = JsonValue::Array(items);
                assert(arr@->Array_0 =~= Seq::new(req@.len(), |j: int| JsonView::String(req@[j]@)));
                entries.push((String::from_str("required"), arr));
            },
            None => {},
        }
        let tv = JsonValue::String(String::from_str("object"));
        assert(tv@ == JsonView::String("object"@));
        entries.push((String::from_str("type"), tv));
        let v = JsonValue::Object(entries);
        assert(v@ == object_schema_view(properties@, req_view)) by {
            let ov = object_schema_view(properties@, req_view)->Object_0;
            assert(v@->Object_0.len() == ov.len());
            assert forall|j: int| 0 <= j < ov.len() implies v@->Object_0[j] == ov[j] by {
                assert(v@->Object_0[j] == (entries@[j].0@, entries@[j].1@));
            }
            assert(v@->Object_0 =~= ov);
        }
        Ok(v)
    }
}

} // verus!

use locai::json::{insert_entry, JsonNumber, JsonValue, NumberRepr};
use locai::relationships::validation::{SchemaValidator, ValidationError};
use locai::time::{F32Bits, OrderedFloat};

fn number(repr: NumberRepr, f: f64) -> JsonValue {
    JsonValue::Number(JsonNumber {
        repr,
        value: OrderedFloat::from_f64_bits(f.to_bits()),
        integral: f.fract() == 0.0,
        text: format!("{}", f),
        single: F32Bits { bits: (f as f32).to_bits() },
    })
}

fn integer(n: i64) -> JsonValue {
    if n >= 0 {
        number(NumberRepr::PosInt(n as u64), n as f64)
    } else {
        number(NumberRepr::NegInt(n), n as f64)
    }
}

fn float(f: f64) -> JsonValue {
    number(NumberRepr::Float, f)
}

fn text(s: &str) -> JsonValue {
    JsonValue::String(s.to_string())
}

fn array(items: Vec<JsonValue>) -> JsonValue {
    JsonValue::Array(items)
}

fn object(pairs: Vec<(&str, JsonValue)>) -> JsonValue {
    let mut entries: Vec<(String, JsonValue)> = Vec::new();
    for (k, v) in pairs {
        insert_entry(&mut entries, k, v);
    }
    JsonValue::Object(entries)
}

#[test]
fn test_validate_null_schema() {
    let schema = JsonValue::Null;
    let data = object(vec![("any", text("thing"))]);
    assert!(SchemaValidator::validate(&schema, &data).is_ok());
}

#[test]
fn test_validate_string_type() {
    let schema = object(vec![("type", text("string"))]);
    assert!(SchemaValidator::validate(&schema, &text("hello")).is_ok());
    assert!(SchemaValidator::validate(&schema, &integer(123)).is_err());
}

#[test]
fn test_validate_number_type() {
    let schema = object(vec![("type", text("number"))]);
    assert!(SchemaValidator::validate(&schema, &float(123.45)).is_ok());
    assert!(SchemaValidator::validate(&schema, &text("hello")).is_err());
}

#[test]
fn test_validate_integer_type() {
    let schema = object(vec![("type", text("integer"))]);
    assert!(SchemaValidator::validate(&schema, &integer(123)).is_ok());
    assert!(SchemaValidator::validate(&schema, &float(123.45)).is_err());
}

#[test]
fn test_validate_boolean_type() {
    let schema = object(vec![("type", text("boolean"))]);
    assert!(SchemaValidator::validate(&schema, &JsonValue::Bool(true)).is_ok());
    assert!(SchemaValidator::validate(&schema, &text("true")).is_err());
}

#[test]
fn test_validate_object_type() {
    let schema = object(vec![("type", text("object"))]);
    assert!(SchemaValidator::validate(&schema, &object(vec![])).is_ok());
    assert!(SchemaValidator::validate(&schema, &array(vec![integer(1), integer(2), integer(3)])).is_err());
}

#[test]
fn test_validate_array_type() {
    let schema = object(vec![("type", text("array"))]);
    assert!(SchemaValidator::validate(&schema, &array(vec![integer(1), integer(2), integer(3)])).is_ok());
    assert!(SchemaValidator::validate(&schema, &object(vec![("a", integer(1))])).is_err());
}

#[test]
fn test_validate_required_fields() {
    let schema = object(vec![
        ("type", text("object")),
        (
            "properties",
            object(vec![
                ("name", object(vec![("type", text("string"))])),
                ("age", object(vec![("type", text("integer"))])),
            ]),
        ),
        ("required", array(vec![text("name"), text("age")])),
    ]);

    let valid_data = object(vec![("name", text("Alice")), ("age", integer(30))]);
    assert!(SchemaValidator::validate(&schema, &valid_data).is_ok());

    let invalid_data = object(vec![("name", text("Alice"))]);
    assert!(SchemaValidator::validate(&schema, &invalid_data).is_err());
}

#[test]
fn test_validate_enum() {
    let schema = object(vec![("enum", array(vec![text("red"), text("green"), text("blue")]))]);
    assert!(SchemaValidator::validate(&schema, &text("red")).is_ok());
    assert!(SchemaValidator::validate(&schema, &text("yellow")).is_err());
}

#[test]
fn test_validate_minimum() {
    let schema = object(vec![("type", text("number")), ("minimum", float(10.0))]);
    assert!(SchemaValidator::validate(&schema, &integer(15)).is_ok());
    assert!(SchemaValidator::validate(&schema, &integer(5)).is_err());
}

#[test]
fn test_validate_maximum() {
    let schema = object(vec![("type", text("number")), ("maximum", float(100.0))]);
    assert!(SchemaValidator::validate(&schema, &integer(50)).is_ok());
    assert!(SchemaValidator::validate(&schema, &integer(150)).is_err());
}

#[test]
fn test_validate_string_minlength() {
    let schema = object(vec![("type", text("string")), ("minLength", integer(3))]);
    assert!(SchemaValidator::validate(&schema, &text("hello")).is_ok());
    assert!(SchemaValidator::validate(&schema, &text("hi")).is_err());
}

#[test]
fn test_validate_string_maxlength() {
    let schema = object(vec![("type", text("string")), ("maxLength", integer(5))]);
    assert!(SchemaValidator::validate(&schema, &text("hello")).is_ok());
    assert!(SchemaValidator::validate(&schema, &text("toolong")).is_err());
}

#[test]
fn test_validate_array_items() {
    let schema = object(vec![("type", text("array")), ("items", object(vec![("type", text("integer"))]))]);

    assert!(SchemaValidator::validate(&schema, &array(vec![integer(1), integer(2), integer(3)])).is_ok());
    assert!(SchemaValidator::validate(&schema, &array(vec![integer(1), text("two"), integer(3)])).is_err());
}

#[test]
fn test_nested_object_validation() {
    let schema = object(vec![
        ("type", text("object")),
        (
            "properties",
            object(vec![(
                "metadata",
                object(vec![
                    ("type", text("object")),
                    (
                        "properties",
                        object(vec![
                            ("rank", object(vec![("type", text("string"))])),
                            ("since", object(vec![("type", text("integer"))])),
                        ]),
                    ),
                ]),
            )]),
        ),
    ]);

    let valid = object(vec![("metadata", object(vec![("rank", text("senior")), ("since", integer(2020))]))]);
    assert!(SchemaValidator::validate(&schema, &valid).is_ok());

    let invalid = object(vec![("metadata", object(vec![("rank", text("senior")), ("since", text("2020"))]))]);
    assert!(SchemaValidator::validate(&schema, &invalid).is_err());
}

#[test]
fn test_parse_schema() {
    let schema = object(vec![("type", text("string"))]);
    assert!(SchemaValidator::parse_schema(&schema).is_ok());
}

#[test]
fn test_parse_invalid_schema() {
    let schema = text("not an object");
    assert!(SchemaValidator::parse_schema(&schema).is_err());
}

#[test]
fn test_simple_schema() {
    let schema = SchemaValidator::simple_schema("string").unwrap();
    assert_eq!(schema.get("type").unwrap().as_str(), Some("string"));
}

#[test]
fn test_object_schema() {
    let schema = SchemaValidator::object_schema(vec![("name", "string"), ("age", "integer")], Some(vec!["name"]))
        .unwrap();

    assert_eq!(schema.get("type").unwrap().as_str(), Some("object"));
    assert!(schema.get("properties").unwrap().get("name").unwrap().is_object());
    assert!(matches!(schema.get("required").unwrap(), JsonValue::Array(_)));
}

#[test]
fn validation_error_messages() {
    let schema = object(vec![("type", text("string"))]);
    match SchemaValidator::validate(&schema, &integer(123)) {
        Err(e) => {
            assert!(matches!(e, ValidationError::TypeMismatch { .. }));
            assert_eq!(e.to_string(), "Type mismatch for field 'value': expected string, got number");
        }
        Ok(()) => panic!("a number is not a string"),
    }

    let schema = object(vec![("minimum", float(10.0))]);
    let e = SchemaValidator::validate(&schema, &integer(5)).unwrap_err();
    assert_eq!(e.to_string(), "Schema validation failed: Value 5 is less than minimum 10");

    let schema = object(vec![("maximum", float(2.5))]);
    let e = SchemaValidator::validate(&schema, &float(3.75)).unwrap_err();
    assert_eq!(e.to_string(), "Schema validation failed: Value 3.75 is greater than maximum 2.5");

    let schema = object(vec![("minLength", integer(3))]);
    let e = SchemaValidator::validate(&schema, &text("hi")).unwrap_err();
    assert_eq!(e.to_string(), "Schema validation failed: String length 2 is less than minimum 3");

    let schema = object(vec![("maxLength", integer(5))]);
    let e = SchemaValidator::validate(&schema, &text("toolong")).unwrap_err();
    assert_eq!(e.to_string(), "Schema validation failed: String length 7 exceeds maximum 5");

    let schema = object(vec![("enum", array(vec![text("red"), integer(3), text("blue")]))]);
    let e = SchemaValidator::validate(&schema, &text("yellow")).unwrap_err();
    assert_eq!(e.to_string(), "Schema validation failed: Value must be one of: red, blue");

    let schema = object(vec![("required", array(vec![text("name"), text("age")]))]);
    let e = SchemaValidator::validate(&schema, &object(vec![("name", text("x"))])).unwrap_err();
    assert_eq!(e.to_string(), "Missing required field: age");
    let e = SchemaValidator::validate(&schema, &integer(1)).unwrap_err();
    assert_eq!(
        e.to_string(),
        "Schema validation failed: Required fields specified but data is not an object"
    );

    let e = SchemaValidator::validate(&text("x"), &integer(1)).unwrap_err();
    assert_eq!(e.to_string(), "Invalid schema format: Schema must be an object");

    let schema = object(vec![("type", integer(1))]);
    let e = SchemaValidator::validate(&schema, &integer(1)).unwrap_err();
    assert_eq!(e.to_string(), "Invalid schema format: Type must be a string");
}

#[test]
fn validation_string_length_counts_bytes() {
    // "héllo" is five characters but six bytes long.
    let schema = object(vec![("maxLength", integer(5))]);
    let e = SchemaValidator::validate(&schema, &text("h\u{e9}llo")).unwrap_err();
    assert_eq!(e.to_string(), "Schema validation failed: String length 6 exceeds maximum 5");
}

#[test]
fn validation_first_failing_property_in_key_order() {
    let schema = object(vec![(
        "properties",
        object(vec![
            ("b", object(vec![("type", text("string"))])),
            ("a", object(vec![("type", text("boolean"))])),
        ]),
    )]);
    let data = object(vec![("a", integer(1)), ("b", integer(2))]);
    let e = SchemaValidator::validate(&schema, &data).unwrap_err();
    assert_eq!(e.to_string(), "Type mismatch for field 'value': expected boolean, got number");
}

#[test]
fn validation_integer_accepts_whole_float() {
    let schema = object(vec![("type", text("integer"))]);
    assert!(SchemaValidator::validate(&schema, &float(4.0)).is_ok());
    assert!(SchemaValidator::validate(&schema, &text("4")).is_err());
}

#[test]
fn parse_schema_type_names() {
    assert!(SchemaValidator::parse_schema(&JsonValue::Null).is_ok());
    let bad = object(vec![("type", text("date"))]);
    let e = SchemaValidator::parse_schema(&bad).unwrap_err();
    assert_eq!(e.to_string(), "Invalid schema format: Invalid type: date");
    let copy = SchemaValidator::parse_schema(&object(vec![("type", text("null"))])).unwrap();
    assert!(copy.equals(&object(vec![("type", text("null"))])));
}

#[test]
fn simple_and_object_schema_errors() {
    let e = SchemaValidator::simple_schema("date").unwrap_err();
    assert_eq!(e.to_string(), "Invalid schema format: Unknown field type: date");
    let e = SchemaValidator::object_schema(vec![("name", "string"), ("born", "date")], None).unwrap_err();
    assert_eq!(e.to_string(), "Invalid schema format: Unknown field type: date");

    let schema = SchemaValidator::object_schema(vec![("name", "string"), ("name", "integer")], None).unwrap();
    let props = schema.get("properties").unwrap();
    assert_eq!(props.get("name").unwrap().get("type").unwrap().as_str(), Some("integer"));
    assert!(schema.get("required").is_none());

    let data = object(vec![("name", integer(7))]);
    assert!(SchemaValidator::validate(&schema, &data).is_ok());
}

#[test]
fn whitespace_is_the_unicode_white_space_set() {
    for c in ['\t', '\n', '\u{0B}', '\u{0C}', '\r', ' ', '\u{85}', '\u{A0}', '\u{1680}', '\u{2000}', '\u{200A}', '\u{2028}', '\u{2029}', '\u{202F}', '\u{205F}', '\u{3000}'] {
        assert!(locai::text::is_whitespace(c), "{:?}", c);
        assert_eq!(locai::text::is_whitespace(c), c.is_whitespace());
    }
    for c in ['a', '0', '\u{200B}', '\u{FEFF}', '\u{1F}', '\u{180E}', '_'] {
        assert!(!locai::text::is_whitespace(c), "{:?}", c);
        assert_eq!(locai::text::is_whitespace(c), c.is_whitespace());
    }
}

use vicardi::Json;
use vicardi::JCardError;
use vicardi::Parameters;
use vicardi::Property;
use vicardi::PropertyValue;
use vicardi::Vcard;

fn jstr(s: &str) -> Json {
    Json::Str(s.to_string())
}

fn empty_obj() -> Json {
    Json::Obj(Vec::new())
}

/// `["vcard", [ ...properties ]]`
fn jcard(properties: Vec<Json>) -> Json {
    Json::Arr(vec![jstr("vcard"), Json::Arr(properties)])
}

/// `[name, {}, value_type, ...values]`
fn jprop(name: &str, value_type: &str, values: Vec<Json>) -> Json {
    let mut elems = vec![jstr(name), empty_obj(), jstr(value_type)];
    elems.extend(values);
    Json::Arr(elems)
}

fn text_property(name: &str, value: &str) -> Property {
    Property::new(name, None, "text", PropertyValue::String(value.to_string()))
}

#[test]
fn version_extraction() {
    let doc = jcard(vec![
        jprop("version", "text", vec![jstr("4.0")]),
        jprop("fn", "text", vec![jstr("X")]),
    ]);
    let card = Vcard::decode(&doc).unwrap();
    assert_eq!(card.version, "4.0");
    assert_eq!(card.properties, vec![text_property("fn", "X")]);
}

#[test]
fn version_extraction_is_case_insensitive() {
    let doc = jcard(vec![jprop("VERSION", "text", vec![jstr("4.0")])]);
    let card = Vcard::decode(&doc).unwrap();
    assert_eq!(card.version, "4.0");
    assert_eq!(card.properties, Vec::new());
}

#[test]
fn version_unwrapped_from_one_element_structured_value() {
    let doc = jcard(vec![jprop(
        "version",
        "text",
        vec![Json::Arr(vec![jstr("4.0")])],
    )]);
    let card = Vcard::decode(&doc).unwrap();
    assert_eq!(card.version, "4.0");
    assert_eq!(card.properties, Vec::new());
}

#[test]
fn only_first_version_property_is_extracted() {
    let doc = jcard(vec![
        jprop("fn", "text", vec![jstr("X")]),
        jprop("version", "text", vec![jstr("4.0")]),
        jprop("Version", "text", vec![jstr("3.0")]),
    ]);
    let card = Vcard::decode(&doc).unwrap();
    assert_eq!(card.version, "4.0");
    assert_eq!(
        card.properties,
        vec![text_property("fn", "X"), text_property("Version", "3.0")]
    );
}

#[test]
fn version_default() {
    let doc = jcard(Vec::new());
    let card = Vcard::decode(&doc).unwrap();
    assert_eq!(card.version, "");
    assert_eq!(card.properties, Vec::new());
}

#[test]
fn trailing_top_level_elements_are_ignored() {
    let doc = Json::Arr(vec![jstr("vcard"), Json::Arr(Vec::new()), jstr("extra")]);
    let card = Vcard::decode(&doc).unwrap();
    assert_eq!(card.version, "");
    assert_eq!(card.properties, Vec::new());
}

#[test]
fn structured_flattening() {
    let property = Property::new(
        "x",
        None,
        "text",
        PropertyValue::Structured(vec![PropertyValue::String("A".to_string())]),
    );
    let encoded = property.encode().unwrap();
    assert_eq!(encoded, jprop("x", "text", vec![jstr("A")]));
}

#[test]
fn structured_with_two_elements_stays_nested() {
    let property = Property::new(
        "org",
        None,
        "text",
        PropertyValue::Structured(vec![
            PropertyValue::String("Org".to_string()),
            PropertyValue::String("Unit".to_string()),
        ]),
    );
    let encoded = property.encode().unwrap();
    assert_eq!(
        encoded,
        jprop("org", "text", vec![Json::Arr(vec![jstr("Org"), jstr("Unit")])])
    );
}

#[test]
fn parameter_collapsing_single() {
    let mut parameters = Parameters::new();
    parameters.insert("type".to_string(), vec!["voice".to_string()]);
    let encoded = parameters.encode().unwrap();
    assert_eq!(encoded, Json::Obj(vec![("type".to_string(), jstr("voice"))]));
}

#[test]
fn parameter_collapsing_multiple() {
    let mut parameters = Parameters::new();
    parameters.insert(
        "type".to_string(),
        vec!["voice".to_string(), "fax".to_string()],
    );
    let encoded = parameters.encode().unwrap();
    assert_eq!(
        encoded,
        Json::Obj(vec![(
            "type".to_string(),
            Json::Arr(vec![jstr("voice"), jstr("fax")])
        )])
    );
}

#[test]
fn parameter_decode_expands_bare_string() {
    let doc = Json::Arr(vec![
        jstr(""),
        Json::Obj(vec![("foo".to_string(), jstr("structured"))]),
        jstr(""),
        jstr(""),
    ]);
    let property = Property::decode(&doc).unwrap();
    let mut expected = Parameters::new();
    expected.insert("foo".to_string(), vec!["structured".to_string()]);
    assert_eq!(property.parameters, expected);
}

#[test]
fn parameter_empty_list_fails_to_encode() {
    let mut parameters = Parameters::new();
    parameters.insert("type".to_string(), Vec::new());
    let err = parameters.encode().unwrap_err();
    assert!(matches!(err, JCardError::Empty { .. }));
}

#[test]
fn parameter_wrong_shape_is_rejected() {
    let doc = jcard(vec![Json::Arr(vec![
        jstr("fn"),
        Json::Obj(vec![("pref".to_string(), Json::Int(1))]),
        jstr("text"),
        jstr("X"),
    ])]);
    let err = Vcard::decode(&doc).unwrap_err();
    match err {
        JCardError::Shape { expected } => {
            assert_eq!(expected, "a map from string to one or multiple strings")
        }
        other => panic!("unexpected error: {:?}", other),
    }
}

#[test]
fn repeated_parameter_names_collapse_to_the_last() {
    let doc = Json::Arr(vec![
        jstr(""),
        Json::Obj(vec![
            ("foo".to_string(), jstr("first")),
            ("foo".to_string(), jstr("second")),
        ]),
        jstr(""),
        jstr(""),
    ]);
    let property = Property::decode(&doc).unwrap();
    let mut expected = Parameters::new();
    expected.insert("foo".to_string(), vec!["second".to_string()]);
    assert_eq!(property.parameters, expected);
}

#[test]
fn empty_values_rejected_on_encode() {
    let property = Property {
        name: "fn".to_string(),
        parameters: Parameters::new(),
        value_type: "text".to_string(),
        values: Vec::new(),
    };
    let err = property.encode().unwrap_err();
    assert!(matches!(err, JCardError::Empty { .. }));
}

#[test]
fn empty_values_rejected_on_decode() {
    let doc = Json::Arr(vec![jstr("fn"), empty_obj(), jstr("text")]);
    let err = Property::decode(&doc).unwrap_err();
    assert!(matches!(err, JCardError::Empty { .. }));
}

#[test]
fn multi_value_splicing() {
    let property = Property::new_multivalued(
        "categories",
        None,
        "text",
        vec![
            PropertyValue::String("rust".to_string()),
            PropertyValue::String("serde".to_string()),
        ],
    );
    let encoded = property.encode().unwrap();
    assert_eq!(encoded, jprop("categories", "text", vec![jstr("rust"), jstr("serde")]));
}

#[test]
fn malformed_header() {
    let doc = Json::Arr(vec![jstr("notvcard"), Json::Arr(Vec::new())]);
    let err = Vcard::decode(&doc).unwrap_err();
    match err {
        JCardError::Value { expected } => assert_eq!(expected, "a \"vcard\" header string"),
        other => panic!("unexpected error: {:?}", other),
    }
}

#[test]
fn non_string_header_is_a_value_error() {
    let doc = Json::Arr(vec![Json::Int(1), Json::Arr(Vec::new())]);
    let err = Vcard::decode(&doc).unwrap_err();
    assert!(matches!(err, JCardError::Value { .. }));
}

#[test]
fn empty_document_is_a_length_error() {
    let err = Vcard::decode(&Json::Arr(Vec::new())).unwrap_err();
    match err {
        JCardError::Length { index, .. } => assert_eq!(index, 0),
        other => panic!("unexpected error: {:?}", other),
    }
}

#[test]
fn missing_property_list_is_a_value_error() {
    let err = Vcard::decode(&Json::Arr(vec![jstr("vcard")])).unwrap_err();
    assert!(matches!(err, JCardError::Value { .. }));
}

#[test]
fn non_array_document_is_a_shape_error() {
    let err = Vcard::decode(&jstr("vcard")).unwrap_err();
    assert!(matches!(err, JCardError::Shape { .. }));
}

#[test]
fn property_fixed_slot_errors_carry_the_index() {
    for (doc, index) in [
        (Json::Arr(vec![Json::Int(1)]), 0),
        (Json::Arr(vec![jstr("fn"), Json::Int(1)]), 1),
        (Json::Arr(vec![jstr("fn"), empty_obj(), Json::Int(1)]), 2),
        (Json::Arr(Vec::new()), 0),
        (Json::Arr(vec![jstr("fn")]), 1),
        (Json::Arr(vec![jstr("fn"), empty_obj()]), 2),
    ] {
        let err = Property::decode(&doc).unwrap_err();
        match err {
            JCardError::Length { index: got, expected } => {
                assert_eq!(got, index);
                assert_eq!(expected, "an array of at least 4 elements");
            }
            other => panic!("unexpected error: {:?}", other),
        }
    }
}

#[test]
fn value_slot_rejects_objects_and_null() {
    for bad in [empty_obj(), Json::Null] {
        let doc = jprop("x", "text", vec![bad]);
        let err = Property::decode(&doc).unwrap_err();
        assert!(matches!(err, JCardError::Shape { .. }));
    }
}

#[test]
fn version_with_two_values_is_a_length_error() {
    let doc = jcard(vec![jprop("version", "text", vec![jstr("4.0"), jstr("3.0")])]);
    let err = Vcard::decode(&doc).unwrap_err();
    match err {
        JCardError::Length { index, .. } => assert_eq!(index, 2),
        other => panic!("unexpected error: {:?}", other),
    }
}

#[test]
fn version_with_long_structured_value_is_a_length_error() {
    let doc = jcard(vec![jprop(
        "version",
        "text",
        vec![Json::Arr(vec![jstr("4"), jstr("0")])],
    )]);
    let err = Vcard::decode(&doc).unwrap_err();
    assert!(matches!(err, JCardError::Length { .. }));
}

#[test]
fn non_string_version_is_a_shape_error() {
    let doc = jcard(vec![jprop("version", "text", vec![Json::Int(4)])]);
    let err = Vcard::decode(&doc).unwrap_err();
    match err {
        JCardError::Shape { expected } => assert_eq!(expected, "a string version property"),
        other => panic!("unexpected error: {:?}", other),
    }
}

#[test]
fn scalar_values_decode_by_shape() {
    let doc = jprop(
        "x",
        "unknown",
        vec![
            jstr("s"),
            Json::Bool(true),
            Json::Int(-3),
            Json::Float(1.5f64.to_bits()),
        ],
    );
    let property = Property::decode(&doc).unwrap();
    assert_eq!(
        property.values,
        vec![
            PropertyValue::String("s".to_string()),
            PropertyValue::Bool(true),
            PropertyValue::Integer(-3),
            PropertyValue::Float(1.5f64.to_bits()),
        ]
    );
}

#[test]
fn round_trip_concrete_card() {
    let mut parameters = Parameters::new();
    parameters.insert("pref".to_string(), vec!["1".to_string()]);
    parameters.insert(
        "type".to_string(),
        vec!["voice".to_string(), "cell".to_string()],
    );
    let mut card = Vcard::default();
    card.push(Property::new_fn("John Doe", None));
    card.push(Property::new_multivalued(
        "categories",
        Some(parameters),
        "text",
        vec![
            PropertyValue::String("rust".to_string()),
            PropertyValue::Bool(false),
            PropertyValue::Integer(42),
            PropertyValue::Float(2.5f64.to_bits()),
            PropertyValue::Structured(vec![
                PropertyValue::String("a".to_string()),
                PropertyValue::String("b".to_string()),
            ]),
        ],
    ));
    let encoded = card.encode().unwrap();
    let decoded = Vcard::decode(&encoded).unwrap();
    assert_eq!(decoded, card);
}

#[test]
fn encode_writes_version_first() {
    let mut card = Vcard::default();
    card.push(Property::new_fn("John Doe", None));
    let encoded = card.encode().unwrap();
    assert_eq!(
        encoded,
        jcard(vec![
            jprop("version", "text", vec![jstr("4.0")]),
            jprop("fn", "text", vec![jstr("John Doe")]),
        ])
    );
}

#[test]
fn decode_of_encoded_one_element_structured_value_is_flattened() {
    let property = Property::new(
        "x",
        None,
        "text",
        PropertyValue::Structured(vec![PropertyValue::String("A".to_string())]),
    );
    let encoded = property.encode().unwrap();
    let decoded = Property::decode(&encoded).unwrap();
    assert_eq!(decoded.values, vec![PropertyValue::String("A".to_string())]);
}

#[test]
fn empty_structured_value_fails_to_encode() {
    let property = Property::new("x", None, "text", PropertyValue::Structured(Vec::new()));
    let err = property.encode().unwrap_err();
    assert!(matches!(err, JCardError::Empty { .. }));
}

#[test]
fn empty_structured_value_decodes_but_cannot_be_reencoded() {
    let doc = jprop("x", "text", vec![Json::Arr(Vec::new())]);
    let property = Property::decode(&doc).unwrap();
    assert_eq!(property.values, vec![PropertyValue::Structured(Vec::new())]);
    assert!(property.encode().is_err());
}

use vicardi::Address;
use vicardi::Json;
use vicardi::Parameters;
use vicardi::Property;
use vicardi::PropertyValue;
use vicardi::Telephone;
use vicardi::Vcard;
use vicardi::Veclike;

fn jstr(s: &str) -> Json {
    Json::Str(s.to_string())
}

fn strings(values: &[&str]) -> Vec<String> {
    values.iter().map(|v| v.to_string()).collect()
}

#[test]
fn default_card_has_version_four() {
    let card = Vcard::default();
    assert_eq!(card.version, "4.0");
    assert_eq!(card.properties, Vec::new());
}

#[test]
fn push_appends_properties_in_order() {
    let mut card = Vcard::default();
    card.push(Property::new_fn("A", None));
    card.push(Property::new_email("a@example.com", None));
    assert_eq!(card.properties.len(), 2);
    assert_eq!(card.properties[0].name, "fn");
    assert_eq!(card.properties[1].name, "email");
}

#[test]
fn new_wraps_the_single_value() {
    let property = Property::new("note", None, "text", PropertyValue::Integer(7));
    assert_eq!(property.name, "note");
    assert_eq!(property.value_type, "text");
    assert_eq!(property.parameters, Parameters::new());
    assert_eq!(property.values, vec![PropertyValue::Integer(7)]);
}

#[test]
fn new_fn_builds_a_text_property() {
    let property = Property::new_fn("John Doe", None);
    assert_eq!(property.name, "fn");
    assert_eq!(property.value_type, "text");
    assert_eq!(property.values, vec![PropertyValue::String("John Doe".to_string())]);
}

#[test]
fn new_org_accepts_structured_values() {
    let property = Property::new_org(
        PropertyValue::Structured(vec![
            PropertyValue::String("Org".to_string()),
            PropertyValue::String("Unit".to_string()),
        ]),
        None,
    );
    assert_eq!(property.name, "org");
    let encoded = property.encode().unwrap();
    assert_eq!(
        encoded,
        Json::Arr(vec![
            jstr("org"),
            Json::Obj(Vec::new()),
            jstr("text"),
            Json::Arr(vec![jstr("Org"), jstr("Unit")]),
        ])
    );
}

#[test]
fn new_email_builds_a_text_property() {
    let property = Property::new_email("vicardi@example.com", None);
    assert_eq!(property.name, "email");
    assert_eq!(
        property.values,
        vec![PropertyValue::String("vicardi@example.com".to_string())]
    );
}

#[test]
fn new_tel_prefixes_the_uri_and_sets_the_type() {
    let property = Property::new_tel(&Telephone::Voice, "+1-555-555-5555", None);
    assert_eq!(property.name, "tel");
    assert_eq!(property.value_type, "uri");
    assert_eq!(
        property.values,
        vec![PropertyValue::String("tel:+1-555-555-5555".to_string())]
    );
    let mut expected = Parameters::new();
    expected.insert("type".to_string(), strings(&["voice"]));
    assert_eq!(property.parameters, expected);
}

#[test]
fn new_tel_keeps_other_parameters() {
    let mut parameters = Parameters::new();
    parameters.insert("pref".to_string(), strings(&["1"]));
    let property = Property::new_tel(&Telephone::Fax, "1", Some(parameters));
    let mut expected = Parameters::new();
    expected.insert("pref".to_string(), strings(&["1"]));
    expected.insert("type".to_string(), strings(&["fax"]));
    assert_eq!(property.parameters, expected);
}

#[test]
fn parameters_insert_replaces_existing_values() {
    let mut parameters = Parameters::new();
    parameters.insert("type".to_string(), strings(&["voice"]));
    parameters.insert("type".to_string(), strings(&["fax", "cell"]));
    assert_eq!(parameters.len(), 1);
    assert_eq!(parameters.entries, vec![("type".to_string(), strings(&["fax", "cell"]))]);
}

#[test]
fn telephone_string_forms() {
    assert_eq!(Telephone::Fax.as_str(), "fax");
    assert_eq!(Telephone::Voice.as_str(), "voice");
    assert_eq!(Telephone::Other("pager".to_string()).as_str(), "pager");
}

#[test]
fn telephone_round_trips_through_strings() {
    for tag in ["fax", "voice", "pager", ""] {
        let tel = Telephone::from_str(tag);
        assert_eq!(tel.as_str(), tag);
    }
    assert_eq!(Telephone::from_str("fax"), Telephone::Fax);
    assert_eq!(Telephone::from_str("voice"), Telephone::Voice);
    assert_eq!(
        Telephone::from_str("pager"),
        Telephone::Other("pager".to_string())
    );
}

#[test]
fn address_round_trip() {
    let address = Address {
        street_address: "Main St".to_string(),
        ..Default::default()
    };
    let property = Property::new_adr(&address, None);
    assert_eq!(property.name, "adr");
    let values = match &property.values[0] {
        PropertyValue::Structured(parts) => parts
            .iter()
            .map(|part| match part {
                PropertyValue::String(s) => s.clone(),
                other => panic!("unexpected part: {:?}", other),
            })
            .collect::<Vec<String>>(),
        other => panic!("unexpected value: {:?}", other),
    };
    assert_eq!(values, strings(&["", "", "Main St", "", "", "", ""]));
    let back = Address::try_from(values).unwrap();
    assert_eq!(back, address);
}

#[test]
fn address_encodes_in_fixed_field_order() {
    let address = Address::new("box", "ext", "street", "loc", "reg", "zip", "country");
    let encoded = address.to_property().encode().unwrap();
    assert_eq!(
        encoded,
        Json::Arr(vec![
            jstr("adr"),
            Json::Obj(Vec::new()),
            jstr("text"),
            Json::Arr(vec![
                jstr("box"),
                jstr("ext"),
                jstr("street"),
                jstr("loc"),
                jstr("reg"),
                jstr("zip"),
                jstr("country"),
            ]),
        ])
    );
}

#[test]
fn address_from_wrong_length_fails() {
    assert!(Address::try_from(strings(&["a", "b"])).is_err());
    assert!(Address::try_from(Vec::new()).is_err());
    assert!(Address::try_from(strings(&["a", "b", "c", "d", "e", "f", "g", "h"])).is_err());
}

#[test]
fn veclike_coerces_one_or_many() {
    assert_eq!(Veclike("one".to_string()).to_vec(), strings(&["one"]));
    assert_eq!(Veclike("one").to_vec(), strings(&["one"]));
    assert_eq!(Veclike(strings(&["a", "b"])).to_vec(), strings(&["a", "b"]));
}

#[test]
fn adr_card_round_trip() {
    let address = Address {
        street_address: "Jakob-Haringer-Strasse 8/V".to_string(),
        locality: "Salzburg".to_string(),
        region: "Salzburg".to_string(),
        postal_code: "5020".to_string(),
        ..Default::default()
    };
    let mut parameters = Parameters::new();
    parameters.insert("pref".to_string(), strings(&["1"]));
    let mut card = Vcard::default();
    card.push(Property::new_adr(&address, Some(parameters)));
    let encoded = card.encode().unwrap();
    let decoded = Vcard::decode(&encoded).unwrap();
    assert_eq!(decoded, card);
}

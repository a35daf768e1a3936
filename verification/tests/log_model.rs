use chrono::{DateTime, FixedOffset, TimeZone};
use native_ocel::definitions::{
    add_attribute_if_missing, ensure_definition, event_type_definitions, object_type_definitions,
    type_definitions,
};
use native_ocel::metadata::{
    attribute_columns, build_metadata, logical_type, native_ocel, string_column,
};
use native_ocel::ocel::{
    AttributeDefinition, AttributeValue, Event, EventAttribute, FloatText, Object,
    ObjectAttribute, Ocel, Timestamp, TypeDefinition, FIRST_SECOND, LAST_SECOND,
};
use native_ocel::rows::attribute_value_to_string;

fn definition(name: &str, attributes: &[(&str, &str)]) -> TypeDefinition {
    TypeDefinition {
        name: name.to_string(),
        attributes: attributes
            .iter()
            .map(|(name, value_type)| AttributeDefinition {
                name: name.to_string(),
                value_type: value_type.to_string(),
            })
            .collect(),
    }
}

fn time() -> Timestamp {
    Timestamp::new(1704161045, 0, 3600).unwrap()
}

fn event(event_type: &str, attributes: &[&str]) -> Event {
    Event {
        id: "e".to_string(),
        event_type: event_type.to_string(),
        time: time(),
        attributes: attributes
            .iter()
            .map(|name| EventAttribute { name: name.to_string(), value: AttributeValue::Null })
            .collect(),
        relationships: Vec::new(),
    }
}

fn object(object_type: &str, attributes: &[&str]) -> Object {
    Object {
        id: "o".to_string(),
        object_type: object_type.to_string(),
        attributes: attributes
            .iter()
            .map(|name| ObjectAttribute {
                name: name.to_string(),
                value: AttributeValue::Null,
                time: time(),
            })
            .collect(),
        relationships: Vec::new(),
    }
}

#[test]
fn timestamps_are_checked() {
    assert!(Timestamp::new(0, 0, 0).is_some());
    assert!(Timestamp::new(0, 1_000_000_000, 0).is_none());
    assert!(Timestamp::new(59, 1_000_000_000, 0).is_some());
    assert!(Timestamp::new(-1, 1_999_999_999, 0).is_some());
    assert!(Timestamp::new(59, 2_000_000_000, 0).is_none());
    assert!(Timestamp::new(0, 0, 86_399).is_some());
    assert!(Timestamp::new(0, 0, 86_400).is_none());
    assert!(Timestamp::new(0, 0, -86_400).is_none());
    assert!(Timestamp::new(FIRST_SECOND, 0, 0).is_some());
    assert!(Timestamp::new(FIRST_SECOND - 1, 0, 0).is_none());
    assert!(Timestamp::new(FIRST_SECOND, 0, -1).is_none());
    assert!(Timestamp::new(LAST_SECOND, 0, 0).is_some());
    assert!(Timestamp::new(LAST_SECOND + 1, 0, 0).is_none());
    assert!(Timestamp::new(LAST_SECOND, 0, 1).is_none());
}

#[test]
fn the_calendar_ends_where_dates_do() {
    assert!(DateTime::from_timestamp(FIRST_SECOND, 0).is_some());
    assert!(DateTime::from_timestamp(FIRST_SECOND - 1, 0).is_none());
    assert!(DateTime::from_timestamp(LAST_SECOND, 0).is_some());
    assert!(DateTime::from_timestamp(LAST_SECOND + 1, 0).is_none());
}

#[test]
fn values_become_texts() {
    assert_eq!(
        attribute_value_to_string(&AttributeValue::Time(time())),
        "2024-01-02T03:04:05+01:00"
    );
    assert_eq!(attribute_value_to_string(&AttributeValue::Integer(-42)), "-42");
    let number = FloatText::new("1.5".to_string()).unwrap();
    assert_eq!(attribute_value_to_string(&AttributeValue::Float(number)), "1.5");
    assert_eq!(attribute_value_to_string(&AttributeValue::Boolean(true)), "true");
    assert_eq!(attribute_value_to_string(&AttributeValue::Boolean(false)), "false");
    assert_eq!(attribute_value_to_string(&AttributeValue::Text("x y".to_string())), "x y");
    assert_eq!(attribute_value_to_string(&AttributeValue::Null), "");
}

#[test]
fn numbers_are_held_as_they_are_displayed() {
    for number in [0.0, -0.0, 12.5, 1e21, 5e-324, f64::MAX, f64::NAN, f64::INFINITY, -1.0 / 3.0] {
        let held = FloatText::new(number.to_string()).unwrap();
        assert_eq!(held.as_str(), number.to_string());
    }
    for text in ["", "abc", "1e5", "1.50", "+1", " 1", "nan", "1,5"] {
        assert_eq!(FloatText::new(text.to_string()), None);
    }
}

#[test]
fn times_are_written_as_dates_write_them() {
    for (seconds, nanos, offset) in [
        (0, 0, 0),
        (59, 1_500_000_000, 0),
        (1704161045, 120_000_000, -5400),
        (FIRST_SECOND, 1, 86_399),
        (LAST_SECOND, 999, -86_399),
    ] {
        let date = FixedOffset::east_opt(offset)
            .unwrap()
            .timestamp_opt(seconds, nanos)
            .unwrap();
        let ours = Timestamp::new(seconds, nanos, offset).unwrap();
        assert_eq!(
            attribute_value_to_string(&AttributeValue::Time(ours)),
            date.to_rfc3339()
        );
    }
}

#[test]
fn first_declaration_counts() {
    let declared = vec![
        definition("pay", &[("amount", "float")]),
        definition("ship", &[]),
        definition("pay", &[("other", "string")]),
    ];
    assert_eq!(
        type_definitions(&declared),
        vec![definition("pay", &[("amount", "float")]), definition("ship", &[])]
    );
}

#[test]
fn ensured_definitions_can_be_changed_in_place() {
    let mut definitions = vec![definition("a", &[]), definition("b", &[])];
    ensure_definition(&mut definitions, "b").attributes.push(AttributeDefinition {
        name: "x".to_string(),
        value_type: "integer".to_string(),
    });
    ensure_definition(&mut definitions, "c");
    ensure_definition(&mut definitions, "a");
    assert_eq!(
        definitions,
        vec![
            definition("a", &[]),
            definition("b", &[("x", "integer")]),
            definition("c", &[]),
        ]
    );
}

#[test]
fn attributes_are_added_once() {
    let mut pay = definition("pay", &[("amount", "float")]);
    add_attribute_if_missing(&mut pay, "amount", "string");
    add_attribute_if_missing(&mut pay, "payer", "string");
    add_attribute_if_missing(&mut pay, "payer", "integer");
    assert_eq!(pay, definition("pay", &[("amount", "float"), ("payer", "string")]));
}

fn log() -> Ocel {
    Ocel {
        event_types: vec![definition("pay", &[("amount", "float")])],
        object_types: vec![definition("order", &[("state", "string")])],
        events: vec![
            event("pay", &["amount", "payer"]),
            event("ship", &["weight"]),
            event("pay", &["note", "payer"]),
        ],
        objects: vec![object("order", &["state", "state", "total"]), object("item", &[])],
    }
}

#[test]
fn events_complete_the_event_types() {
    assert_eq!(
        event_type_definitions(&log()),
        vec![
            definition("pay", &[("amount", "float"), ("payer", "string"), ("note", "string")]),
            definition("ship", &[("weight", "string")]),
        ]
    );
}

#[test]
fn objects_complete_the_object_types() {
    assert_eq!(
        object_type_definitions(&log()),
        vec![
            definition("order", &[("state", "string"), ("total", "string")]),
            definition("item", &[]),
        ]
    );
}

#[test]
fn metadata_list_four_tables() {
    let metadata = build_metadata(&log());
    let names: Vec<&str> = metadata.tables.iter().map(|table| table.name.as_str()).collect();
    assert_eq!(names, vec!["event_types", "object_types", "events", "objects"]);
    let counts: Vec<usize> = metadata.tables.iter().map(|table| table.row_count).collect();
    assert_eq!(counts, vec![2, 2, 3, 2]);
    for table in &metadata.tables {
        assert_eq!(table.kind, "native OCEL collection");
    }
    let columns: Vec<Vec<&str>> = metadata
        .tables
        .iter()
        .map(|table| table.columns.iter().map(|column| column.name.as_str()).collect())
        .collect();
    assert_eq!(
        columns,
        vec![
            vec!["name", "attributes"],
            vec!["name", "attributes"],
            vec!["id", "type", "time", "attributes", "relationships"],
            vec!["id", "type", "attributes", "relationships"],
        ]
    );
    for table in &metadata.tables {
        for column in &table.columns {
            assert_eq!(column.logical_type, "string");
        }
    }
    assert!(metadata.event_table_by_type.is_empty());
    assert!(metadata.object_table_by_type.is_empty());
}

#[test]
fn loaded_logs_carry_their_metadata() {
    let native = native_ocel(log(), 17);
    assert_eq!(native.load_nanos, 17);
    assert_eq!(native.ocel, log());
    assert_eq!(native.metadata, build_metadata(&log()));
}

#[test]
fn declared_types_have_logical_types() {
    assert_eq!(logical_type("Boolean"), "boolean");
    assert_eq!(logical_type("xs:BOOL"), "boolean");
    assert_eq!(logical_type("UINT"), "integer");
    assert_eq!(logical_type("Long"), "integer");
    assert_eq!(logical_type("float"), "float");
    assert_eq!(logical_type("Double"), "float");
    assert_eq!(logical_type("number"), "float");
    assert_eq!(logical_type("REAL"), "float");
    assert_eq!(logical_type("time"), "string");
    assert_eq!(logical_type(""), "string");
    assert_eq!(logical_type("boolint"), "boolean");
    for logical in ["boolean", "integer", "float", "string"] {
        assert_eq!(logical_type(logical), logical);
    }
    assert_eq!(logical_type("intfloat"), "integer");
}

#[test]
fn string_columns_hold_strings() {
    let column = string_column("id");
    assert_eq!(column.name, "id");
    assert_eq!(column.logical_type, "string");
}

#[test]
fn attribute_columns_have_names_of_their_own() {
    let attributes = definition(
        "t",
        &[("a", "int"), ("a", "bool"), ("a_1", "text"), ("b", "float"), ("a", "long")],
    )
    .attributes;
    let columns = attribute_columns(&attributes);
    let pairs: Vec<(&str, &str)> = columns
        .iter()
        .map(|column| (column.name.as_str(), column.logical_type.as_str()))
        .collect();
    assert_eq!(
        pairs,
        vec![
            ("a", "integer"),
            ("a_1", "boolean"),
            ("a_1_1", "string"),
            ("b", "float"),
            ("a_2", "integer"),
        ]
    );
}

use arrow_array::{Array, StringArray};
use arrow_ipc::reader::StreamReader;
use native_ocel::arrow::{
    all_columns_fit, arrow_for_events, arrow_for_objects, arrow_for_type_definitions,
    checked_table_arrow_ipc, column_fits, nested_column, table_arrow_ipc, table_fits,
    stream_failure, write_arrow_ipc, StreamStep,
};
use native_ocel::json::{
    attributes_json, json_bytes, json_string, operation_catalog_json, spec_json, Document,
};
use native_ocel::metadata::{native_ocel, NativeOcel, TableDefinition};
use native_ocel::names::{type_table_names, NameSet};
use native_ocel::ocel::{
    AttributeDefinition, AttributeValue, Event, EventAttribute, FloatText, Object,
    ObjectAttribute, Ocel, Relationship, Timestamp, TypeDefinition,
};
use native_ocel::query::{
    checked_query_arrow_ipc, query_arrow_ipc, requested_table, QueryRequest,
};
use native_ocel::rows::{
    change_cells, definition_cells, event_cells, object_cells, rows_for_table, rows_for_type_table, rows_json,
    slice_rows, some, table_rows_json, typed_event_cells,
};
use process_mining::ocel::ocel_struct::{
    OCELAttributeValue, OCELEventAttribute, OCELObjectAttribute, OCELRelationship,
};

fn time() -> Timestamp {
    Timestamp::new(1704161045, 0, 3600).unwrap()
}

fn utc() -> Timestamp {
    Timestamp::new(1704161045, 250_000_000, 0).unwrap()
}

fn text(value: &str) -> String {
    value.to_string()
}

fn float(value: &str) -> FloatText {
    FloatText::new(value.to_string()).unwrap()
}

fn cell(value: &str) -> Option<String> {
    Some(value.to_string())
}

fn relationship(object_id: &str, qualifier: &str) -> Relationship {
    Relationship { object_id: text(object_id), qualifier: text(qualifier) }
}

fn log() -> Ocel {
    Ocel {
        event_types: vec![TypeDefinition {
            name: text("pay"),
            attributes: vec![AttributeDefinition {
                name: text("amount"),
                value_type: text("float"),
            }],
        }],
        object_types: Vec::new(),
        events: vec![
            Event {
                id: text("e1"),
                event_type: text("pay"),
                time: time(),
                attributes: vec![
                    EventAttribute {
                        name: text("amount"),
                        value: AttributeValue::Float(float("12.5")),
                    },
                    EventAttribute {
                        name: text("amount"),
                        value: AttributeValue::Integer(1),
                    },
                ],
                relationships: vec![relationship("o1", "pays \"it\"")],
            },
            Event {
                id: text("e2"),
                event_type: text("ship"),
                time: utc(),
                attributes: vec![EventAttribute {
                    name: text("fast"),
                    value: AttributeValue::Boolean(true),
                }],
                relationships: Vec::new(),
            },
            Event {
                id: text("e3"),
                event_type: text("pay"),
                time: utc(),
                attributes: Vec::new(),
                relationships: Vec::new(),
            },
        ],
        objects: vec![
            Object {
                id: text("o1"),
                object_type: text("order"),
                attributes: vec![
                    ObjectAttribute {
                        name: text("state"),
                        value: AttributeValue::Text(text("open")),
                        time: time(),
                    },
                    ObjectAttribute {
                        name: text("total"),
                        value: AttributeValue::Integer(7),
                        time: utc(),
                    },
                ],
                relationships: vec![relationship("o2", "")],
            },
            Object {
                id: text("o2"),
                object_type: text("item"),
                attributes: Vec::new(),
                relationships: Vec::new(),
            },
        ],
    }
}

fn native() -> NativeOcel {
    native_ocel(log(), 5)
}

fn table(name: &str, row_count: usize) -> TableDefinition {
    TableDefinition {
        name: text(name),
        kind: text("native OCEL collection"),
        row_count,
        columns: Vec::new(),
    }
}

fn columns_of(bytes: &[u8]) -> (Vec<String>, Vec<Vec<String>>) {
    let mut reader = StreamReader::try_new(bytes, None).unwrap();
    let names: Vec<String> =
        reader.schema().fields().iter().map(|field| field.name().clone()).collect();
    for field in reader.schema().fields().iter() {
        assert!(!field.is_nullable());
    }
    let batch = reader.next().unwrap().unwrap();
    assert!(reader.next().is_none());
    let columns = batch
        .columns()
        .iter()
        .map(|column| {
            let texts = column.as_any().downcast_ref::<StringArray>().unwrap();
            (0..texts.len()).map(|i| texts.value(i).to_string()).collect()
        })
        .collect();
    (names, columns)
}

#[test]
fn nested_errors_are_labelled() {
    assert_eq!(json_string(Ok(text("[]"))), Ok(text("[]")));
    assert_eq!(
        json_string(Err(text("no"))),
        Err(text("Could not serialize native OCEL nested value: no"))
    );
}

#[test]
fn documents_become_bytes() {
    assert_eq!(
        json_bytes(Document::Rows, Ok(text("\"\u{e9}\""))),
        Ok(vec![34, 0xc3, 0xa9, 34])
    );
    for (document, message) in [
        (Document::Metadata, "Could not serialize native OCEL metadata: no"),
        (Document::Catalog, "Could not serialize native operation catalog: no"),
        (Document::Rows, "Could not serialize native OCEL table rows: no"),
    ] {
        assert_eq!(json_bytes(document, Err(text("no"))), Err(text(message)));
    }
}

#[test]
fn attribute_definitions_are_written() {
    let attributes = vec![
        AttributeDefinition { name: text("a\"b"), value_type: text("float") },
        AttributeDefinition { name: text("c"), value_type: text("") },
    ];
    assert_eq!(
        attributes_json(&attributes),
        Ok(text(
            "[{\"name\":\"a\\\"b\",\"value_type\":\"float\"},{\"name\":\"c\",\"value_type\":\"\"}]"
        ))
    );
    assert_eq!(attributes_json(&Vec::new()), Ok(text("[]")));
}

#[test]
fn spec_describes_the_log() {
    let bytes = spec_json(&native()).unwrap();
    assert_eq!(
        String::from_utf8(bytes).unwrap(),
        "{\"backend\":\"Rust process_mining 0.3.19 JNI\",\"load_nanos\":5,\"tables\":[\
         {\"name\":\"event_types\",\"kind\":\"native OCEL collection\",\"row_count\":2,\
         \"columns\":[{\"name\":\"name\",\"type\":\"string\"},\
         {\"name\":\"attributes\",\"type\":\"string\"}]},\
         {\"name\":\"object_types\",\"kind\":\"native OCEL collection\",\"row_count\":2,\
         \"columns\":[{\"name\":\"name\",\"type\":\"string\"},\
         {\"name\":\"attributes\",\"type\":\"string\"}]},\
         {\"name\":\"events\",\"kind\":\"native OCEL collection\",\"row_count\":3,\
         \"columns\":[{\"name\":\"id\",\"type\":\"string\"},\
         {\"name\":\"type\",\"type\":\"string\"},\
         {\"name\":\"time\",\"type\":\"string\"},\
         {\"name\":\"attributes\",\"type\":\"string\"},\
         {\"name\":\"relationships\",\"type\":\"string\"}]},\
         {\"name\":\"objects\",\"kind\":\"native OCEL collection\",\"row_count\":2,\
         \"columns\":[{\"name\":\"id\",\"type\":\"string\"},\
         {\"name\":\"type\",\"type\":\"string\"},\
         {\"name\":\"attributes\",\"type\":\"string\"},\
         {\"name\":\"relationships\",\"type\":\"string\"}]}]}"
    );
}

#[test]
fn catalog_lists_the_operations() {
    assert_eq!(
        String::from_utf8(operation_catalog_json().unwrap()).unwrap(),
        "{\"operations\":[{\"name\":\"ocel.load\",\
         \"description\":\"Load an OCEL file into a native process_mining::OCEL handle.\",\
         \"input\":\"{path, format}\",\"output\":\"native OCEL handle\"},\
         {\"name\":\"ocel.query.table\",\
         \"description\":\"Return one native OCEL top-level collection as an Arrow IPC stream.\",\
         \"input\":\"{handle, table}\",\"output\":\"Arrow IPC stream bytes\"}]}"
    );
}

#[test]
fn rows_are_sliced() {
    let rows: Vec<Vec<Option<String>>> =
        (0..5).map(|i| vec![some(format!("{i}"))]).collect();
    assert_eq!(slice_rows(rows.clone(), 1, 2), rows[1..3].to_vec());
    assert_eq!(slice_rows(rows.clone(), 4, 9), rows[4..].to_vec());
    assert_eq!(slice_rows(rows.clone(), 3, usize::MAX), rows[3..].to_vec());
    assert!(slice_rows(rows.clone(), 5, 1).is_empty());
    assert!(slice_rows(rows.clone(), usize::MAX, 1).is_empty());
    assert!(slice_rows(rows.clone(), 0, 0).is_empty());
    let mut joined = slice_rows(rows.clone(), 0, 2);
    joined.extend(slice_rows(rows.clone(), 2, 3));
    assert_eq!(joined, slice_rows(rows, 0, 5));
}

#[test]
fn cells_show_what_could_be_written() {
    let log = log();
    assert_eq!(
        definition_cells(&log.event_types[0], Ok(text("[]"))),
        vec![cell("pay"), cell("[]")]
    );
    assert_eq!(definition_cells(&log.event_types[0], Err(text("no"))), vec![cell("pay"), None]);
    assert_eq!(
        event_cells(&log.events[0], text("now"), Err(text("no")), Ok(text("r"))),
        vec![cell("e1"), cell("pay"), cell("now"), None, cell("r")]
    );
    assert_eq!(
        object_cells(&log.objects[1], Ok(text("a")), Err(text("no"))),
        vec![cell("o2"), cell("item"), cell("a"), None]
    );
}

#[test]
fn event_rows_are_paged() {
    let native = native();
    let rows = rows_for_table(&native, &native.metadata.tables[2], 0, 10).unwrap();
    assert_eq!(
        rows,
        vec![
            vec![
                cell("e1"),
                cell("pay"),
                cell("2024-01-02T03:04:05+01:00"),
                cell("[{\"name\":\"amount\",\"value\":12.5},{\"name\":\"amount\",\"value\":1}]"),
                cell("[{\"objectId\":\"o1\",\"qualifier\":\"pays \\\"it\\\"\"}]"),
            ],
            vec![
                cell("e2"),
                cell("ship"),
                cell("2024-01-02T02:04:05.250+00:00"),
                cell("[{\"name\":\"fast\",\"value\":true}]"),
                cell("[]"),
            ],
            vec![
                cell("e3"),
                cell("pay"),
                cell("2024-01-02T02:04:05.250+00:00"),
                cell("[]"),
                cell("[]"),
            ],
        ]
    );
    assert_eq!(
        rows_for_table(&native, &native.metadata.tables[2], 1, 1).unwrap(),
        rows[1..2].to_vec()
    );
    assert_eq!(
        rows_for_table(&native, &native.metadata.tables[2], 2, usize::MAX).unwrap(),
        rows[2..].to_vec()
    );
    assert!(rows_for_table(&native, &native.metadata.tables[2], 3, 1).unwrap().is_empty());
    assert!(rows_for_table(&native, &native.metadata.tables[2], 0, 0).unwrap().is_empty());
}

#[test]
fn object_rows_hold_their_changes() {
    let native = native();
    let rows = rows_for_table(&native, &native.metadata.tables[3], 0, 1).unwrap();
    assert_eq!(
        rows,
        vec![vec![
            cell("o1"),
            cell("order"),
            cell(
                "[{\"name\":\"state\",\"value\":\"open\",\"time\":\"2024-01-02T03:04:05+01:00\"},\
                 {\"name\":\"total\",\"value\":7,\"time\":\"2024-01-02T02:04:05.250Z\"}]"
            ),
            cell("[{\"objectId\":\"o2\",\"qualifier\":\"\"}]"),
        ]]
    );
}

#[test]
fn type_rows_hold_their_attributes() {
    let native = native();
    assert_eq!(
        rows_for_table(&native, &native.metadata.tables[0], 0, 10).unwrap(),
        vec![
            vec![cell("pay"), cell("[{\"name\":\"amount\",\"value_type\":\"float\"}]")],
            vec![cell("ship"), cell("[{\"name\":\"fast\",\"value_type\":\"string\"}]")],
        ]
    );
    assert_eq!(
        rows_for_table(&native, &native.metadata.tables[1], 1, 1).unwrap(),
        vec![vec![cell("item"), cell("[]")]]
    );
}

#[test]
fn unknown_tables_have_no_rows() {
    let native = native();
    assert_eq!(
        rows_for_table(&native, &table("other", 1), 0, 1),
        Err(text("Native OCEL table 'other' is not recognized."))
    );
    assert_eq!(rows_for_table(&native, &table("other", 1), 1, 1), Ok(Vec::new()));
    assert_eq!(rows_for_table(&native, &table("other", 1), 0, 0), Ok(Vec::new()));
    assert_eq!(
        table_rows_json(&native, "other", 0, 1),
        Err(text("Native OCEL table 'other' is not available."))
    );
}

#[test]
fn rows_are_written() {
    assert_eq!(
        rows_json(&vec![vec![cell("a"), None], Vec::new()]),
        Ok(text("{\"rows\":[[\"a\",null],[]]}"))
    );
    let bytes = table_rows_json(&native(), "object_types", 0, 1).unwrap();
    assert_eq!(
        String::from_utf8(bytes).unwrap(),
        "{\"rows\":[[\"order\",\"[{\\\"name\\\":\\\"state\\\",\\\"value_type\\\":\\\"string\\\"},\
         {\\\"name\\\":\\\"total\\\",\\\"value_type\\\":\\\"string\\\"}]\"]]}"
    );
    assert_eq!(table_rows_json(&native(), "events", 9, 1), Ok(b"{\"rows\":[]}".to_vec()));
}

#[test]
fn nested_values_are_written_as_their_crate_writes_them() {
    let native = native_ocel(
        Ocel {
            event_types: Vec::new(),
            object_types: Vec::new(),
            events: vec![Event {
                id: text("e"),
                event_type: text("t"),
                time: time(),
                attributes: [
                    AttributeValue::Time(utc()),
                    AttributeValue::Integer(i64::MIN),
                    AttributeValue::Float(float("0.1")),
                    AttributeValue::Float(float("2")),
                    AttributeValue::Float(float("NaN")),
                    AttributeValue::Boolean(false),
                    AttributeValue::Text(text("\u{1}\n\u{e9}")),
                    AttributeValue::Null,
                ]
                .into_iter()
                .map(|value| EventAttribute { name: text("n"), value })
                .collect(),
                relationships: vec![relationship("o", "q")],
            }],
            objects: vec![Object {
                id: text("o"),
                object_type: text("t"),
                attributes: vec![ObjectAttribute {
                    name: text("n"),
                    value: AttributeValue::Time(time()),
                    time: utc(),
                }],
                relationships: Vec::new(),
            }],
        },
        0,
    );
    let at = |text: &str| chrono::DateTime::parse_from_rfc3339(text).unwrap();
    let attributes: Vec<OCELEventAttribute> = [
        OCELAttributeValue::Time(at("2024-01-02T02:04:05.25Z")),
        OCELAttributeValue::Integer(i64::MIN),
        OCELAttributeValue::Float(0.1),
        OCELAttributeValue::Float(2.0),
        OCELAttributeValue::Float(f64::NAN),
        OCELAttributeValue::Boolean(false),
        OCELAttributeValue::String(text("\u{1}\n\u{e9}")),
        OCELAttributeValue::Null,
    ]
    .into_iter()
    .map(|value| OCELEventAttribute { name: text("n"), value })
    .collect();
    let relationships = vec![OCELRelationship { object_id: text("o"), qualifier: text("q") }];
    let changes = vec![OCELObjectAttribute {
        name: text("n"),
        value: OCELAttributeValue::Time(at("2024-01-02T03:04:05+01:00")),
        time: at("2024-01-02T02:04:05.25Z"),
    }];
    let events = rows_for_table(&native, &native.metadata.tables[2], 0, 1).unwrap();
    assert_eq!(events[0][3], Some(serde_json::to_string(&attributes).unwrap()));
    assert_eq!(events[0][4], Some(serde_json::to_string(&relationships).unwrap()));
    let objects = rows_for_table(&native, &native.metadata.tables[3], 0, 1).unwrap();
    assert_eq!(objects[0][2], Some(serde_json::to_string(&changes).unwrap()));
}

#[test]
fn typed_event_tables_have_one_column_for_each_attribute() {
    let mut native = native();
    native.metadata.event_table_by_type =
        vec![(text("pay"), text("event_pay")), (text("gone"), text("event_gone"))];
    native.metadata.event_types[0].attributes.push(AttributeDefinition {
        name: text("payer"),
        value_type: text("string"),
    });
    assert_eq!(
        rows_for_type_table(&native, &table("event_pay", 0), 0, 10).unwrap(),
        vec![
            vec![cell("e1"), cell("2024-01-02T03:04:05+01:00"), cell("12.5"), None],
            vec![cell("e3"), cell("2024-01-02T02:04:05.250+00:00"), None, None],
        ]
    );
    assert_eq!(
        rows_for_type_table(&native, &table("event_pay", 0), 1, 10).unwrap().len(),
        1
    );
    assert_eq!(
        rows_for_type_table(&native, &table("event_gone", 0), 0, 10),
        Err(text("Missing event type definition for 'gone'."))
    );
    assert_eq!(
        rows_for_type_table(&native, &table("events", 0), 0, 10),
        Err(text("Native OCEL table 'events' is not recognized."))
    );
}

#[test]
fn typed_cells_show_the_time_as_it_was_written() {
    let native = native();
    assert_eq!(
        typed_event_cells(&native.ocel.events[0], text("now"), &native.metadata.event_types[0]),
        vec![cell("e1"), cell("now"), cell("12.5")]
    );
    let order = &native.ocel.objects[0];
    assert_eq!(
        change_cells(
            order,
            &order.attributes[1],
            text("then"),
            &native.metadata.object_types[0]
        ),
        vec![cell("o1"), cell("then"), cell("total"), None, cell("7")]
    );
}

#[test]
fn typed_object_tables_have_one_row_for_each_change() {
    let mut native = native();
    native.metadata.object_table_by_type =
        vec![(text("order"), text("object_order")), (text("gone"), text("object_gone"))];
    assert_eq!(
        rows_for_type_table(&native, &table("object_order", 0), 0, 10).unwrap(),
        vec![
            vec![
                cell("o1"),
                cell("2024-01-02T03:04:05+01:00"),
                cell("state"),
                cell("open"),
                None,
            ],
            vec![
                cell("o1"),
                cell("2024-01-02T02:04:05.250+00:00"),
                cell("total"),
                None,
                cell("7"),
            ],
        ]
    );
    assert_eq!(
        rows_for_type_table(&native, &table("object_order", 0), 1, 1).unwrap()[0][2],
        cell("total")
    );
    assert_eq!(
        rows_for_type_table(&native, &table("object_gone", 0), 0, 10),
        Err(text("Missing object type definition for 'gone'."))
    );
}

#[test]
fn loaded_logs_list_no_typed_tables() {
    let native = native();
    for name in ["events", "event_pay", "object_order"] {
        assert_eq!(
            rows_for_type_table(&native, &table(name, 3), 0, 10),
            Err(format!("Native OCEL table '{name}' is not recognized."))
        );
    }
}

#[test]
fn typed_tables_are_addressed_by_the_names_they_were_given() {
    let mut native = native();
    let mut used = NameSet::new();
    native.metadata.event_table_by_type =
        type_table_names("event", &native.metadata.event_types, &mut used);
    native.metadata.object_table_by_type =
        type_table_names("event", &native.metadata.object_types, &mut used);
    let ids = |name: &str| -> Vec<Option<String>> {
        rows_for_type_table(&native, &table(name, 0), 0, 10)
            .unwrap()
            .into_iter()
            .map(|row| row[0].clone())
            .collect()
    };
    assert_eq!(ids("event_pay"), vec![cell("e1"), cell("e3")]);
    assert_eq!(ids("event_ship"), vec![cell("e2")]);
    assert_eq!(ids("event_order"), vec![cell("o1"), cell("o1")]);
    assert_eq!(ids("event_item"), Vec::new());
}

#[test]
fn nested_columns_stop_at_the_first_error() {
    assert_eq!(
        nested_column(vec![Ok(text("a")), Ok(text("b"))]),
        Ok(vec![text("a"), text("b")])
    );
    assert_eq!(
        nested_column(vec![Ok(text("a")), Err(text("x")), Err(text("y"))]),
        Err(text("Could not serialize native OCEL nested value: x"))
    );
    assert_eq!(nested_column(Vec::new()), Ok(Vec::new()));
}

#[test]
fn streams_give_back_their_columns() {
    let columns = vec![vec![text("1"), text("")], vec![text("\u{e9}"), text("x")]];
    let bytes = write_arrow_ipc(vec!["a", "b"], columns.clone()).unwrap();
    assert_eq!(columns_of(&bytes), (vec![text("a"), text("b")], columns));
}

#[test]
fn streams_take_many_and_long_names() {
    let long = "n\u{e9}".repeat(5000);
    let bytes = write_arrow_ipc(vec![&long], vec![vec![text("1")]]).unwrap();
    assert_eq!(columns_of(&bytes), (vec![long.clone()], vec![vec![text("1")]]));
    let names: Vec<String> = (0..3000).map(|i| format!("column {i}")).collect();
    let columns: Vec<Vec<String>> = (0..3000).map(|i| vec![format!("{i}")]).collect();
    let bytes =
        write_arrow_ipc(names.iter().map(|name| name.as_str()).collect(), columns.clone()).unwrap();
    assert_eq!(columns_of(&bytes), (names, columns));
}

#[test]
fn streams_may_have_no_rows() {
    let columns = vec![Vec::new(), Vec::new()];
    let bytes = write_arrow_ipc(vec!["a", "a"], columns.clone()).unwrap();
    assert_eq!(columns_of(&bytes), (vec![text("a"), text("a")], columns));
}

#[test]
fn failed_steps_are_named() {
    for (step, message) in [
        (StreamStep::Batch, "Could not create native OCEL Arrow record batch: x"),
        (StreamStep::Open, "Could not create native OCEL Arrow IPC writer: x"),
        (StreamStep::Write, "Could not write native OCEL Arrow IPC batch: x"),
        (StreamStep::Finish, "Could not finish native OCEL Arrow IPC stream: x"),
    ] {
        assert_eq!(stream_failure(step, "x"), message);
    }
}

#[test]
fn streams_need_well_shaped_columns() {
    let short = write_arrow_ipc(vec!["a", "b"], vec![vec![text("1")], Vec::new()]);
    assert_eq!(
        short,
        Err(text(
            "Could not create native OCEL Arrow record batch: Invalid argument error: \
             all columns in a record batch must have the same length"
        ))
    );
    assert_eq!(
        write_arrow_ipc(vec!["a"], vec![vec![text("1")], vec![text("2")]]),
        Err(text(
            "Could not create native OCEL Arrow record batch: Invalid argument error: \
             number of columns(2) must match number of fields(1) in schema"
        ))
    );
    assert_eq!(
        write_arrow_ipc(Vec::new(), Vec::new()),
        Err(text(
            "Could not create native OCEL Arrow record batch: Invalid argument error: \
             must either specify a row count or at least one column"
        ))
    );
}

#[test]
fn small_columns_fit() {
    assert!(column_fits(&vec![text("a"), text("\u{e9}")]));
    assert!(column_fits(&Vec::new()));
    assert!(all_columns_fit(&vec![Vec::new(), vec![text("a")]]));
}

#[test]
fn tables_stream_what_their_rows_hold() {
    let native = native();
    for listed in &native.metadata.tables {
        let bytes = table_arrow_ipc(&native, &listed.name).unwrap();
        assert_eq!(checked_table_arrow_ipc(&native, &listed.name), Some(Ok(bytes.clone())));
        let (names, columns) = columns_of(&bytes);
        let listed_names: Vec<String> =
            listed.columns.iter().map(|column| column.name.clone()).collect();
        assert_eq!(names, listed_names);
        let rows = rows_for_table(&native, listed, 0, listed.row_count).unwrap();
        assert_eq!(rows.len(), listed.row_count);
        for (c, column) in columns.iter().enumerate() {
            assert_eq!(column.len(), listed.row_count);
            for (r, value) in column.iter().enumerate() {
                assert_eq!(rows[r][c].as_ref(), Some(value));
            }
        }
    }
}

#[test]
fn unknown_tables_have_no_streams() {
    let native = native();
    let refused = Err(text(
        "Native OCEL table 'event' is not available. Available native collections: event_types, \
         object_types, events, objects.",
    ));
    assert!(table_fits(&native, "event"));
    assert!(table_fits(&native, "events"));
    assert_eq!(table_arrow_ipc(&native, "event"), refused);
    assert_eq!(checked_table_arrow_ipc(&native, "event"), Some(refused));
}

#[test]
fn single_tables_have_their_own_streams() {
    let native = native();
    assert_eq!(arrow_for_events(&native), table_arrow_ipc(&native, "events"));
    assert_eq!(arrow_for_objects(&native), table_arrow_ipc(&native, "objects"));
    assert_eq!(
        arrow_for_type_definitions(&native.metadata.event_types),
        table_arrow_ipc(&native, "event_types")
    );
    assert_eq!(
        arrow_for_type_definitions(&native.metadata.object_types),
        table_arrow_ipc(&native, "object_types")
    );
}

#[test]
fn queries_name_their_table() {
    let request = |operation: Option<&str>| {
        Ok(QueryRequest { operation: operation.map(text), table: text("events") })
    };
    assert_eq!(requested_table(&request(None)), Ok(text("events")));
    assert_eq!(requested_table(&request(Some("ocel.query.table"))), Ok(text("events")));
    assert_eq!(
        requested_table(&request(Some("ocel.load"))),
        Err(text("Unsupported native OCEL query operation: ocel.load"))
    );
    assert_eq!(
        requested_table(&Err(text("bad"))),
        Err(text("Could not parse native OCEL query JSON: bad"))
    );
    let native = native();
    let expected = arrow_for_events(&native);
    assert_eq!(query_arrow_ipc(&native, request(None)), expected);
    assert_eq!(
        checked_query_arrow_ipc(&native, request(Some("ocel.query.table"))),
        Some(expected)
    );
    assert_eq!(
        query_arrow_ipc(&native, Err(text("bad"))),
        Err(text("Could not parse native OCEL query JSON: bad"))
    );
}

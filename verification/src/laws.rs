//! What the operations promise, stated on the logs, requests and answers themselves.
use vstd::prelude::*;
use vstd::utf8::{decode_utf8, encode_utf8, valid_utf8};

use crate::arrow::{
    arrow_stream, batch_refusal, collected, column_bytes, columns_fit, frame_bytes, frame_fits,
    frame_stream, ipc_bytes, names_fit, nested_texts, stream_failure_text, table_frame,
    text_outcomes, well_shaped, ArrowTable, FrameModel, StreamStep,
};
use crate::bridge::{
    format_of, import_failure_text, page_answer, query_answer, query_answer_fits, spec_answer,
    utf8_refusal, utf8_text, ImportFormat,
};
use crate::definitions::{event_types_of, object_types_of};
use crate::json::{
    attributes_document, catalog_document, document_label, encoded, json_text, labelled,
    nested_label, spec_document, Document, JsonModel,
};
use crate::metadata::{
    attribute_column_models, logical_text, metadata_of, text_column, ColumnModel, Metadata,
    NativeModel, NativeOcel, TableDefinition,
};
use crate::names::assigned;
use crate::ocel::{
    event_attributes_text, object_attributes_text, relationships_document, rfc3339_text,
    AttributeDefinitionModel, AttributeValue, Event, EventAttributeModel, EventModel, Instant,
    Object, ObjectAttributeModel, ObjectModel, Ocel, OcelModel, RelationshipModel, TypeDefinition,
    TypeModel, ValueModel,
};
use crate::query::{
    answer_fits, query_outcome, query_stream, query_target, QueryModel, QueryRequest,
};
use crate::registry::{native_at, poisoned_text, registry_view, Registry, RegistryModel};
use crate::rows::{
    cell, definition_row, event_row, first_table, first_value, object_row, page, page_json,
    rows_document, rows_outcome, table_names_differ, table_rows, type_of_table, typed_event_rows,
    typed_object_rows, typed_page, value_string, window,
};
use crate::text::{
    byte_outcome, decimal, decimal_nat, has_part, lower_text, part_at, text_outcome,
};

verus! {

/// A text in lower case is as long as the text; capital ASCII letters lie 32 code points below their
/// small ones, and every other character stays as it is.
pub proof fn lower_case_moves_capitals(s: Seq<char>, i: int)
    requires
        0 <= i < s.len(),
    ensures
        lower_text(s).len() == s.len(),
        ({
            let code = s[i] as u32;
            if 65 <= code && code <= 90 {
                lower_text(s)[i] as u32 == code + 32
            } else {
                lower_text(s)[i] == s[i]
            }
        }),
{
}

/// A text has a part exactly where something may stand before it and something behind it.
pub proof fn parts_are_surrounded(s: Seq<char>, part: Seq<char>)
    ensures
        has_part(s, part) <==> exists|before: Seq<char>, after: Seq<char>|
            s == #[trigger] (before + part + after),
{
    if has_part(s, part) {
        let i = choose|i: int| part_at(s, part, i);
        let before = s.take(i);
        let after = s.skip(i + part.len());
        assert forall|k: int| 0 <= k < part.len() implies s[i + k] == #[trigger] part[k] by {
            assert(s.subrange(i, i + part.len())[k] == part[k]);
        }
        assert(s == before + part + after);
    }
    if exists|before: Seq<char>, after: Seq<char>| s == #[trigger] (before + part + after) {
        let (before, after) = choose|before: Seq<char>, after: Seq<char>|
            s == #[trigger] (before + part + after);
        assert(s.subrange(before.len() as int, before.len() as int + part.len()) == part);
        assert(part_at(s, part, before.len() as int));
    }
}

/// Decimal notation: a digit stands for itself, a further digit multiplies by ten and counts in, and
/// a negative number has a `-` before its magnitude.
pub proof fn decimal_counts_by_tens(i: int, d: int)
    requires
        0 <= d < 10,
    ensures
        decimal(d).len() == 1,
        decimal(d)[0] as u32 == 48 + d,
        i > 0 ==> decimal(10 * i + d) == decimal(i) + decimal(d),
        i > 0 ==> decimal(-i) == seq!['-'] + decimal(i),
{
    if i > 0 {
        let n = (10 * i + d) as nat;
        assert(n / 10 == i as nat);
        assert(n % 10 == d as nat);
        assert(decimal_nat(n) == decimal_nat(i as nat) + decimal_nat(d as nat));
    }
}

/// Outcomes hand over their texts, bytes and messages as they are.
pub proof fn outcomes_are_handed_over(
    text: Result<String, String>,
    bytes: Result<Vec<u8>, String>,
    rows: Result<Vec<Vec<Option<String>>>, String>,
    texts: Seq<Result<String, String>>,
)
    ensures
        text matches Ok(t) ==> text_outcome(text) == Ok::<Seq<char>, Seq<char>>(t@),
        text matches Err(e) ==> text_outcome(text) == Err::<Seq<char>, Seq<char>>(e@),
        bytes matches Ok(b) ==> byte_outcome(bytes) == Ok::<Seq<u8>, Seq<char>>(b@),
        bytes matches Err(e) ==> byte_outcome(bytes) == Err::<Seq<u8>, Seq<char>>(e@),
        rows matches Err(e) ==> rows_outcome(rows) == Err::<Seq<Seq<Option<Seq<char>>>>, Seq<char>>(e@),
        rows matches Ok(given) ==> {
            let held = rows_outcome(rows)->Ok_0;
            &&& rows_outcome(rows) is Ok
            &&& held.len() == given@.len()
            &&& forall|r: int| 0 <= r < given@.len() ==> (#[trigger] held[r]).len() == given@[r]@.len()
            &&& forall|r: int, c: int|
                0 <= r < given@.len() && 0 <= c < given@[r]@.len() ==> #[trigger] held[r][c]
                    == match given@[r]@[c] {
                    Some(t) => Some(t@),
                    None => None,
                }
        },
        text_outcomes(texts).len() == texts.len(),
        forall|i: int|
            0 <= i < texts.len() ==> #[trigger] text_outcomes(texts)[i] == match texts[i] {
                Ok(t) => Ok::<Seq<char>, Seq<char>>(t@),
                Err(e) => Err(e@),
            },
{
}

/// An instant is valid exactly where it and its local time lie between the years -262143 and 262142,
/// its offset is less than a day, and its nanoseconds stay within the second, or within the leap
/// second behind the last second of a minute.
pub proof fn instants_lie_within_the_calendar(instant: Instant)
    ensures
        instant.valid() <==> {
            &&& -8334601228800 <= instant.seconds <= 8210266876799
            &&& -8334601228800 <= instant.seconds + instant.offset <= 8210266876799
            &&& -86400 < instant.offset < 86400
            &&& 0 <= instant.nanos
            &&& (instant.nanos < 1_000_000_000 || (instant.nanos < 2_000_000_000 && instant.seconds % 60
                == 59))
        },
{
}

/// The model of a value holds the value.
pub proof fn values_are_viewed_whole(value: AttributeValue)
    ensures
        value.deep_view() == match value {
            AttributeValue::Time(time) => ValueModel::Time(time.deep_view()),
            AttributeValue::Integer(i) => ValueModel::Integer(i as int),
            AttributeValue::Float(number) => ValueModel::Float(number.deep_view()),
            AttributeValue::Boolean(b) => ValueModel::Boolean(b),
            AttributeValue::Text(text) => ValueModel::Text(text@),
            AttributeValue::Null => ValueModel::Null,
        },
{
}

/// The model of a type holds its name and its attributes, each in its place.
pub proof fn types_are_viewed_whole(definition: TypeDefinition)
    ensures
        definition.deep_view().name == definition.name@,
        definition.deep_view().attributes.len() == definition.attributes@.len(),
        forall|a: int|
            0 <= a < definition.attributes@.len() ==> (#[trigger] definition.deep_view().attributes[a])
                == (AttributeDefinitionModel {
                name: definition.attributes@[a].name@,
                value_type: definition.attributes@[a].value_type@,
            }),
{
}

/// The model of an event holds its parts, its attributes and its relationships, each in its place.
pub proof fn events_are_viewed_whole(event: Event)
    ensures
        event.deep_view().id == event.id@,
        event.deep_view().event_type == event.event_type@,
        event.deep_view().time == event.time.deep_view(),
        event.deep_view().attributes.len() == event.attributes@.len(),
        forall|a: int|
            0 <= a < event.attributes@.len() ==> (#[trigger] event.deep_view().attributes[a]) == (
            EventAttributeModel {
                name: event.attributes@[a].name@,
                value: event.attributes@[a].value.deep_view(),
            }),
        event.deep_view().relationships.len() == event.relationships@.len(),
        forall|k: int|
            0 <= k < event.relationships@.len() ==> (#[trigger] event.deep_view().relationships[k]) == (
            RelationshipModel {
                object_id: event.relationships@[k].object_id@,
                qualifier: event.relationships@[k].qualifier@,
            }),
{
}

/// The model of an object holds its parts, its attributes and its relationships, each in its place.
pub proof fn objects_are_viewed_whole(object: Object)
    ensures
        object.deep_view().id == object.id@,
        object.deep_view().object_type == object.object_type@,
        object.deep_view().attributes.len() == object.attributes@.len(),
        forall|a: int|
            0 <= a < object.attributes@.len() ==> (#[trigger] object.deep_view().attributes[a]) == (
            ObjectAttributeModel {
                name: object.attributes@[a].name@,
                value: object.attributes@[a].value.deep_view(),
                time: object.attributes@[a].time.deep_view(),
            }),
        object.deep_view().relationships.len() == object.relationships@.len(),
        forall|k: int|
            0 <= k < object.relationships@.len() ==> (#[trigger] object.deep_view().relationships[k]) == (
            RelationshipModel {
                object_id: object.relationships@[k].object_id@,
                qualifier: object.relationships@[k].qualifier@,
            }),
{
}

/// The model of a log holds its types, its events and its objects, each in its place.
pub proof fn logs_are_viewed_whole(ocel: Ocel)
    ensures
        ocel.deep_view().event_types.len() == ocel.event_types@.len(),
        ocel.deep_view().object_types.len() == ocel.object_types@.len(),
        ocel.deep_view().events.len() == ocel.events@.len(),
        ocel.deep_view().objects.len() == ocel.objects@.len(),
        forall|i: int|
            0 <= i < ocel.event_types@.len() ==> #[trigger] ocel.deep_view().event_types[i]
                == ocel.event_types@[i].deep_view(),
        forall|i: int|
            0 <= i < ocel.object_types@.len() ==> #[trigger] ocel.deep_view().object_types[i]
                == ocel.object_types@[i].deep_view(),
        forall|i: int|
            0 <= i < ocel.events@.len() ==> #[trigger] ocel.deep_view().events[i]
                == ocel.events@[i].deep_view(),
        forall|i: int|
            0 <= i < ocel.objects@.len() ==> #[trigger] ocel.deep_view().objects[i]
                == ocel.objects@[i].deep_view(),
{
}

/// The model of a table definition holds its parts and its columns, each in its place.
pub proof fn tables_are_viewed_whole(table: TableDefinition)
    ensures
        table.deep_view().name == table.name@,
        table.deep_view().kind == table.kind@,
        table.deep_view().row_count == table.row_count,
        table.deep_view().columns.len() == table.columns@.len(),
        forall|c: int|
            0 <= c < table.columns@.len() ==> (#[trigger] table.deep_view().columns[c]) == (ColumnModel {
                name: table.columns@[c].name@,
                logical_type: table.columns@[c].logical_type@,
            }),
{
}

/// The model of metadata holds the types, the tables of single types and the tables, each in its
/// place.
pub proof fn metadata_are_viewed_whole(metadata: Metadata)
    ensures
        metadata.deep_view().event_types.len() == metadata.event_types@.len(),
        metadata.deep_view().object_types.len() == metadata.object_types@.len(),
        metadata.deep_view().event_table_by_type.len() == metadata.event_table_by_type@.len(),
        metadata.deep_view().object_table_by_type.len() == metadata.object_table_by_type@.len(),
        metadata.deep_view().tables.len() == metadata.tables@.len(),
        forall|i: int|
            0 <= i < metadata.event_types@.len() ==> #[trigger] metadata.deep_view().event_types[i]
                == metadata.event_types@[i].deep_view(),
        forall|i: int|
            0 <= i < metadata.object_types@.len() ==> #[trigger] metadata.deep_view().object_types[i]
                == metadata.object_types@[i].deep_view(),
        forall|i: int|
            0 <= i < metadata.event_table_by_type@.len()
                ==> #[trigger] metadata.deep_view().event_table_by_type[i] == (
                metadata.event_table_by_type@[i].0@,
                metadata.event_table_by_type@[i].1@,
            ),
        forall|i: int|
            0 <= i < metadata.object_table_by_type@.len()
                ==> #[trigger] metadata.deep_view().object_table_by_type[i] == (
                metadata.object_table_by_type@[i].0@,
                metadata.object_table_by_type@[i].1@,
            ),
        forall|i: int|
            0 <= i < metadata.tables@.len() ==> #[trigger] metadata.deep_view().tables[i]
                == metadata.tables@[i].deep_view(),
{
}

/// The models of a loaded log, of a table by its columns and of a query hold their parts.
pub proof fn answers_are_viewed_whole(native: NativeOcel, table: ArrowTable, query: QueryRequest)
    ensures
        native.deep_view().ocel == native.ocel.deep_view(),
        native.deep_view().metadata == native.metadata.deep_view(),
        native.deep_view().load_nanos == native.load_nanos,
        table.deep_view().names.len() == table.names@.len(),
        forall|c: int|
            0 <= c < table.names@.len() ==> #[trigger] table.deep_view().names[c] == table.names@[c]@,
        table.deep_view().columns.len() == table.columns@.len(),
        forall|c: int|
            0 <= c < table.columns@.len() ==> (#[trigger] table.deep_view().columns[c]).len()
                == table.columns@[c]@.len(),
        forall|c: int, r: int|
            0 <= c < table.columns@.len() && 0 <= r < table.columns@[c]@.len()
                ==> #[trigger] table.deep_view().columns[c][r] == table.columns@[c]@[r]@,
        query.deep_view().table == query.table@,
        query.deep_view().operation == match query.operation {
            Some(operation) => Some(operation@),
            None => None,
        },
{
}

/// Attributes are written as a list of one object for each, with its name and its value type as they
/// are.
pub proof fn attributes_are_written_as_they_are(attributes: Seq<AttributeDefinitionModel>)
    ensures
        attributes_document(attributes) == JsonModel::List(
            Seq::new(
                attributes.len(),
                |a: int|
                    JsonModel::Object(
                        seq![
                            ("name"@, JsonModel::Text(attributes[a].name)),
                            ("value_type"@, JsonModel::Text(attributes[a].value_type)),
                        ],
                    ),
            ),
        ),
{
    assert(attributes_document(attributes)->List_0 == Seq::new(
        attributes.len(),
        |a: int|
            JsonModel::Object(
                seq![
                    ("name"@, JsonModel::Text(attributes[a].name)),
                    ("value_type"@, JsonModel::Text(attributes[a].value_type)),
                ],
            ),
    ));
}

/// Different attributes are written as different documents.
pub proof fn attributes_can_be_read_back(
    first: Seq<AttributeDefinitionModel>,
    second: Seq<AttributeDefinitionModel>,
)
    requires
        attributes_document(first) == attributes_document(second),
    ensures
        first == second,
{
    attributes_are_written_as_they_are(first);
    attributes_are_written_as_they_are(second);
    let one = attributes_document(first)->List_0;
    let other = attributes_document(second)->List_0;
    assert(first.len() == one.len() && second.len() == other.len());
    assert forall|a: int| 0 <= a < first.len() implies first[a] == second[a] by {
        let fields = one[a]->Object_0;
        assert(fields[0].1 == JsonModel::Text(first[a].name));
        assert(fields[1].1 == JsonModel::Text(first[a].value_type));
        assert(other[a]->Object_0[0].1 == JsonModel::Text(second[a].name));
        assert(other[a]->Object_0[1].1 == JsonModel::Text(second[a].value_type));
    }
    assert(first == second);
}

/// Relationships are written as a list of one object for each, with its object and its qualifier as
/// they are.
pub proof fn relationships_are_written_as_they_are(relationships: Seq<RelationshipModel>)
    ensures
        relationships_document(relationships) == JsonModel::List(
            Seq::new(
                relationships.len(),
                |k: int|
                    JsonModel::Object(
                        seq![
                            ("objectId"@, JsonModel::Text(relationships[k].object_id)),
                            ("qualifier"@, JsonModel::Text(relationships[k].qualifier)),
                        ],
                    ),
            ),
        ),
{
    assert(relationships_document(relationships)->List_0 == Seq::new(
        relationships.len(),
        |k: int|
            JsonModel::Object(
                seq![
                    ("objectId"@, JsonModel::Text(relationships[k].object_id)),
                    ("qualifier"@, JsonModel::Text(relationships[k].qualifier)),
                ],
            ),
    ));
}

/// Different relationships are written as different documents.
pub proof fn relationships_can_be_read_back(
    first: Seq<RelationshipModel>,
    second: Seq<RelationshipModel>,
)
    requires
        relationships_document(first) == relationships_document(second),
    ensures
        first == second,
{
    relationships_are_written_as_they_are(first);
    relationships_are_written_as_they_are(second);
    let one = relationships_document(first)->List_0;
    let other = relationships_document(second)->List_0;
    assert(first.len() == one.len() && second.len() == other.len());
    assert forall|k: int| 0 <= k < first.len() implies first[k] == second[k] by {
        assert(one[k]->Object_0[0].1 == JsonModel::Text(first[k].object_id));
        assert(one[k]->Object_0[1].1 == JsonModel::Text(first[k].qualifier));
        assert(other[k]->Object_0[0].1 == JsonModel::Text(second[k].object_id));
        assert(other[k]->Object_0[1].1 == JsonModel::Text(second[k].qualifier));
    }
    assert(first == second);
}

/// Rows are written as they are: the document holds one list for each row, with one item for each of
/// its cells, a text for a filled one and null for an empty one.
pub proof fn rows_are_written_as_they_are(rows: Seq<Seq<Option<Seq<char>>>>)
    ensures
        rows_document(rows) == JsonModel::Object(
            seq![
                (
                    "rows"@,
                    JsonModel::List(
                        Seq::new(
                            rows.len(),
                            |r: int|
                                JsonModel::List(
                                    Seq::new(
                                        rows[r].len(),
                                        |c: int|
                                            match rows[r][c] {
                                                Some(text) => JsonModel::Text(text),
                                                None => JsonModel::Null,
                                            },
                                    ),
                                ),
                        ),
                    ),
                ),
            ],
        ),
{
    let items = rows_document(rows)->Object_0[0].1->List_0;
    let expected = Seq::new(
        rows.len(),
        |r: int|
            JsonModel::List(
                Seq::new(
                    rows[r].len(),
                    |c: int|
                        match rows[r][c] {
                            Some(text) => JsonModel::Text(text),
                            None => JsonModel::Null,
                        },
                ),
            ),
    );
    assert forall|r: int| 0 <= r < rows.len() implies items[r] == #[trigger] expected[r] by {
        assert(items[r]->List_0 == expected[r]->List_0);
    }
    assert(items == expected);
}

/// Different rows are written as different documents.
pub proof fn rows_can_be_read_back(
    first: Seq<Seq<Option<Seq<char>>>>,
    second: Seq<Seq<Option<Seq<char>>>>,
)
    requires
        rows_document(first) == rows_document(second),
    ensures
        first == second,
{
    rows_are_written_as_they_are(first);
    rows_are_written_as_they_are(second);
    let one = rows_document(first)->Object_0[0].1->List_0;
    let other = rows_document(second)->Object_0[0].1->List_0;
    assert(first.len() == one.len() && second.len() == other.len());
    assert forall|r: int| 0 <= r < first.len() implies first[r] == second[r] by {
        let a = one[r]->List_0;
        let b = other[r]->List_0;
        assert(first[r].len() == a.len() && second[r].len() == b.len());
        assert forall|c: int| 0 <= c < first[r].len() implies first[r][c] == second[r][c] by {
            assert(a[c] == b[c]);
        }
        assert(first[r] == second[r]);
    }
    assert(first == second);
}

/// The catalog lists two operations, loading and querying, each with its name, its description, its
/// input and its output.
pub proof fn catalog_lists_loading_and_querying()
    ensures
        catalog_document() == JsonModel::Object(
            seq![
                (
                    "operations"@,
                    JsonModel::List(
                        seq![
                            JsonModel::Object(
                                seq![
                                    ("name"@, JsonModel::Text("ocel.load"@)),
                                    (
                                        "description"@,
                                        JsonModel::Text(
                                            "Load an OCEL file into a native process_mining::OCEL handle."@,
                                        ),
                                    ),
                                    ("input"@, JsonModel::Text("{path, format}"@)),
                                    ("output"@, JsonModel::Text("native OCEL handle"@)),
                                ],
                            ),
                            JsonModel::Object(
                                seq![
                                    ("name"@, JsonModel::Text("ocel.query.table"@)),
                                    (
                                        "description"@,
                                        JsonModel::Text(
                                            "Return one native OCEL top-level collection as an Arrow IPC stream."@,
                                        ),
                                    ),
                                    ("input"@, JsonModel::Text("{handle, table}"@)),
                                    ("output"@, JsonModel::Text("Arrow IPC stream bytes"@)),
                                ],
                            ),
                        ],
                    ),
                ),
            ],
        ),
{
}

/// The metadata of a log: its types, no tables of single types, and four tables, named for what they
/// hold, with as many rows as the log has of it and with string columns.
pub proof fn metadata_count_the_log(ocel: Ocel)
    ensures
        ({
            let metadata = metadata_of(ocel.deep_view());
            let tables = metadata.tables;
            &&& metadata.event_types == event_types_of(ocel.deep_view())
            &&& metadata.object_types == object_types_of(ocel.deep_view())
            &&& metadata.event_table_by_type.len() == 0
            &&& metadata.object_table_by_type.len() == 0
            &&& tables.len() == 4
            &&& tables[0].name == "event_types"@
            &&& tables[1].name == "object_types"@
            &&& tables[2].name == "events"@
            &&& tables[3].name == "objects"@
            &&& tables[0].row_count == metadata.event_types.len()
            &&& tables[1].row_count == metadata.object_types.len()
            &&& tables[2].row_count == ocel.events@.len()
            &&& tables[3].row_count == ocel.objects@.len()
            &&& tables[0].columns.map_values(|c: ColumnModel| c.name) == seq!["name"@, "attributes"@]
            &&& tables[1].columns.map_values(|c: ColumnModel| c.name) == seq!["name"@, "attributes"@]
            &&& tables[2].columns.map_values(|c: ColumnModel| c.name) == seq![
                "id"@,
                "type"@,
                "time"@,
                "attributes"@,
                "relationships"@,
            ]
            &&& tables[3].columns.map_values(|c: ColumnModel| c.name) == seq![
                "id"@,
                "type"@,
                "attributes"@,
                "relationships"@,
            ]
            &&& forall|t: int| 0 <= t < 4 ==> (#[trigger] tables[t]).kind == "native OCEL collection"@
            &&& forall|t: int, c: int|
                0 <= t < 4 && 0 <= c < tables[t].columns.len() ==> (#[trigger] tables[t].columns[c]).logical_type
                    == "string"@
        }),
{
    let tables = metadata_of(ocel.deep_view()).tables;
    assert(tables[0].columns.map_values(|c: ColumnModel| c.name) == seq!["name"@, "attributes"@]);
    assert(tables[1].columns.map_values(|c: ColumnModel| c.name) == seq!["name"@, "attributes"@]);
    assert(tables[2].columns.map_values(|c: ColumnModel| c.name) == seq![
        "id"@,
        "type"@,
        "time"@,
        "attributes"@,
        "relationships"@,
    ]);
    assert(tables[3].columns.map_values(|c: ColumnModel| c.name) == seq![
        "id"@,
        "type"@,
        "attributes"@,
        "relationships"@,
    ]);
}

/// A column of strings has its name and says so.
pub proof fn string_columns_say_so(name: Seq<char>)
    ensures
        text_column(name).name == name,
        text_column(name).logical_type == "string"@,
{
}

/// The description of a log names the backend and the time that loading took, and has one entry for
/// each table, with its name, its kind, its number of rows and its columns as they are.
pub proof fn descriptions_tell_the_tables(native: NativeOcel)
    ensures
        ({
            let fields = spec_document(native.deep_view())->Object_0;
            let entries = fields[2].1->List_0;
            let tables = native.metadata.tables@;
            &&& spec_document(native.deep_view()) is Object
            &&& fields.len() == 3
            &&& fields[0] == ("backend"@, JsonModel::Text("Rust process_mining 0.3.19 JNI"@))
            &&& fields[1] == ("load_nanos"@, JsonModel::Number(native.load_nanos as int))
            &&& fields[2].0 == "tables"@
            &&& fields[2].1 is List
            &&& entries.len() == tables.len()
            &&& forall|t: int|
                #![trigger entries[t]]
                #![trigger tables[t]]
                0 <= t < tables.len() ==> {
                    let entry = entries[t]->Object_0;
                    let columns = entry[3].1->List_0;
                    &&& entries[t] is Object
                    &&& entry.len() == 4
                    &&& entry[0] == ("name"@, JsonModel::Text(tables[t].name@))
                    &&& entry[1] == ("kind"@, JsonModel::Text(tables[t].kind@))
                    &&& entry[2] == ("row_count"@, JsonModel::Number(tables[t].row_count as int))
                    &&& entry[3].0 == "columns"@
                    &&& entry[3].1 is List
                    &&& columns.len() == tables[t].columns@.len()
                    &&& forall|c: int|
                        0 <= c < tables[t].columns@.len() ==> #[trigger] columns[c]
                            == JsonModel::Object(
                            seq![
                                ("name"@, JsonModel::Text(tables[t].columns@[c].name@)),
                                ("type"@, JsonModel::Text(tables[t].columns@[c].logical_type@)),
                            ],
                        )
                }
        }),
{
}

/// The description of a loaded log tells of each listed table how many rows the table has: as many
/// as there are event types, object types, events and objects.
pub proof fn descriptions_count_the_rows(native: NativeOcel, t: int)
    requires
        native.deep_view().well_formed(),
        0 <= t < 4,
    ensures
        ({
            let model = native.deep_view();
            let entry = spec_document(model)->Object_0[2].1->List_0[t]->Object_0;
            let count = if t == 0 {
                event_types_of(model.ocel).len() as int
            } else if t == 1 {
                object_types_of(model.ocel).len() as int
            } else if t == 2 {
                native.ocel.events@.len() as int
            } else {
                native.ocel.objects@.len() as int
            };
            &&& spec_document(model)->Object_0[2].1->List_0.len() == 4
            &&& entry[2] == ("row_count"@, JsonModel::Number(count))
            &&& entry[0].0 == "name"@
            &&& table_rows(model, entry[0].1->Text_0) is Some
            &&& table_rows(model, entry[0].1->Text_0)->0.len() == count
        }),
{
    metadata_count_the_log(native.ocel);
    table_names_differ();
}

/// The table of events has one row and one text in each column for each event of the log, in their
/// order: its id, its type, its time, its attributes and all of its relationships.
pub proof fn event_table_holds_the_events(native: NativeOcel, k: int)
    requires
        0 <= k < native.ocel.events@.len(),
    ensures
        ({
            let model = native.deep_view();
            let event = native.ocel.events@[k];
            let columns = table_frame(model, "events"@)->Ok_0.columns;
            let rows = table_rows(model, "events"@)->0;
            &&& columns.len() == 5
            &&& columns[0][k] == event.id@
            &&& columns[1][k] == event.event_type@
            &&& columns[2][k] == rfc3339_text(event.time.deep_view())
            &&& columns[3][k] == event_attributes_text(event.attributes.deep_view())
            &&& columns[4][k] == json_text(
                JsonModel::List(
                    Seq::new(
                        event.relationships@.len(),
                        |j: int|
                            JsonModel::Object(
                                seq![
                                    (
                                        "objectId"@,
                                        JsonModel::Text(event.relationships@[j].object_id@),
                                    ),
                                    (
                                        "qualifier"@,
                                        JsonModel::Text(event.relationships@[j].qualifier@),
                                    ),
                                ],
                            ),
                    ),
                ),
            )
            &&& rows[k].len() == 5
            &&& forall|c: int| 0 <= c < 5 ==> #[trigger] rows[k][c] == Some(columns[c][k])
        }),
{
    table_names_differ();
    let event = native.ocel.events@[k];
    let relationships = event.relationships.deep_view();
    relationships_are_written_as_they_are(relationships);
    assert(relationships_document(relationships)->List_0 == Seq::new(
        event.relationships@.len(),
        |j: int|
            JsonModel::Object(
                seq![
                    ("objectId"@, JsonModel::Text(event.relationships@[j].object_id@)),
                    ("qualifier"@, JsonModel::Text(event.relationships@[j].qualifier@)),
                ],
            ),
    ));
}

/// The table of objects has one row and one text in each column for each object of the log, in their
/// order: its id, its type, its attributes and all of its relationships.
pub proof fn object_table_holds_the_objects(native: NativeOcel, k: int)
    requires
        0 <= k < native.ocel.objects@.len(),
    ensures
        ({
            let model = native.deep_view();
            let object = native.ocel.objects@[k];
            let columns = table_frame(model, "objects"@)->Ok_0.columns;
            let rows = table_rows(model, "objects"@)->0;
            &&& columns.len() == 4
            &&& columns[0][k] == object.id@
            &&& columns[1][k] == object.object_type@
            &&& columns[2][k] == object_attributes_text(object.attributes.deep_view())
            &&& columns[3][k] == json_text(
                JsonModel::List(
                    Seq::new(
                        object.relationships@.len(),
                        |j: int|
                            JsonModel::Object(
                                seq![
                                    (
                                        "objectId"@,
                                        JsonModel::Text(object.relationships@[j].object_id@),
                                    ),
                                    (
                                        "qualifier"@,
                                        JsonModel::Text(object.relationships@[j].qualifier@),
                                    ),
                                ],
                            ),
                    ),
                ),
            )
            &&& rows[k].len() == 4
            &&& forall|c: int| 0 <= c < 4 ==> #[trigger] rows[k][c] == Some(columns[c][k])
        }),
{
    table_names_differ();
    let object = native.ocel.objects@[k];
    let relationships = object.relationships.deep_view();
    relationships_are_written_as_they_are(relationships);
    assert(relationships_document(relationships)->List_0 == Seq::new(
        object.relationships@.len(),
        |j: int|
            JsonModel::Object(
                seq![
                    ("objectId"@, JsonModel::Text(object.relationships@[j].object_id@)),
                    ("qualifier"@, JsonModel::Text(object.relationships@[j].qualifier@)),
                ],
            ),
    ));
}

/// The tables of types have one row and one text in each column for each type, in their order: its
/// name and all of its attributes.
pub proof fn type_tables_hold_the_types(native: NativeOcel, of_events: bool, k: int)
    requires
        0 <= k < (if of_events {
            native.metadata.event_types@
        } else {
            native.metadata.object_types@
        }).len(),
    ensures
        ({
            let model = native.deep_view();
            let name = if of_events {
                "event_types"@
            } else {
                "object_types"@
            };
            let definition = if of_events {
                native.metadata.event_types@[k]
            } else {
                native.metadata.object_types@[k]
            };
            let columns = table_frame(model, name)->Ok_0.columns;
            let rows = table_rows(model, name)->0;
            &&& columns.len() == 2
            &&& columns[0][k] == definition.name@
            &&& columns[1][k] == json_text(
                JsonModel::List(
                    Seq::new(
                        definition.attributes@.len(),
                        |a: int|
                            JsonModel::Object(
                                seq![
                                    ("name"@, JsonModel::Text(definition.attributes@[a].name@)),
                                    (
                                        "value_type"@,
                                        JsonModel::Text(definition.attributes@[a].value_type@),
                                    ),
                                ],
                            ),
                    ),
                ),
            )
            &&& rows[k].len() == 2
            &&& forall|c: int| 0 <= c < 2 ==> #[trigger] rows[k][c] == Some(columns[c][k])
        }),
{
    table_names_differ();
    let definition = if of_events {
        native.metadata.event_types@[k]
    } else {
        native.metadata.object_types@[k]
    };
    let attributes = definition.attributes.deep_view();
    attributes_are_written_as_they_are(attributes);
    assert(attributes_document(attributes)->List_0 == Seq::new(
        definition.attributes@.len(),
        |a: int|
            JsonModel::Object(
                seq![
                    ("name"@, JsonModel::Text(definition.attributes@[a].name@)),
                    ("value_type"@, JsonModel::Text(definition.attributes@[a].value_type@)),
                ],
            ),
    ));
}

/// There are four tables, by rows and by columns, each as long as what it holds, and no other; their
/// streams hold one batch of just their columns.
pub proof fn tables_are_as_long_as_the_log(native: NativeOcel, name: Seq<char>)
    ensures
        ({
            let model = native.deep_view();
            let frame = table_frame(model, name);
            let count = if name == "event_types"@ {
                Some(native.metadata.event_types@.len())
            } else if name == "object_types"@ {
                Some(native.metadata.object_types@.len())
            } else if name == "events"@ {
                Some(native.ocel.events@.len())
            } else if name == "objects"@ {
                Some(native.ocel.objects@.len())
            } else {
                None
            };
            match count {
                Some(n) => {
                    let table = frame->Ok_0;
                    &&& table_rows(model, name) is Some
                    &&& table_rows(model, name)->0.len() == n
                    &&& frame is Ok
                    &&& table.names == if name == "events"@ {
                        seq!["id"@, "type"@, "time"@, "attributes"@, "relationships"@]
                    } else if name == "objects"@ {
                        seq!["id"@, "type"@, "attributes"@, "relationships"@]
                    } else {
                        seq!["name"@, "attributes"@]
                    }
                    &&& table.columns.len() == table.names.len()
                    &&& forall|c: int|
                        0 <= c < table.columns.len() ==> (#[trigger] table.columns[c]).len() == n
                    &&& frame_stream(frame) == Ok::<Seq<u8>, Seq<char>>(
                        ipc_bytes(table.names, seq![table.columns]),
                    )
                    &&& frame_bytes(table) == ipc_bytes(table.names, seq![table.columns])
                    &&& frame_fits(frame) <==> forall|c: int|
                        0 <= c < table.columns.len() ==> column_bytes(#[trigger] table.columns[c])
                            <= 2147483647
                },
                None => {
                    &&& table_rows(model, name) is None
                    &&& frame_fits(frame)
                    &&& frame == Err::<FrameModel, Seq<char>>(
                        "Native OCEL table '"@ + name
                            + "' is not available. Available native collections: event_types, object_types, events, objects."@,
                    )
                    &&& frame_stream(frame) == Err::<Seq<u8>, Seq<char>>(frame->Err_0)
                },
            }
        }),
{
    table_names_differ();
}

/// The rows of definitions, events and objects show in each cell what was written for it, and
/// nothing where it could not be written.
pub proof fn cells_show_what_was_written(
    definition: TypeModel,
    event: EventModel,
    object: ObjectModel,
    time: Seq<char>,
    first: Result<Seq<char>, Seq<char>>,
    second: Result<Seq<char>, Seq<char>>,
)
    ensures
        first matches Ok(text) ==> cell(first) == Some(text),
        first is Err ==> cell(first) is None,
        definition_row(definition, first) == seq![Some(definition.name), cell(first)],
        event_row(event, time, first, second) == seq![
            Some(event.id),
            Some(event.event_type),
            Some(time),
            cell(first),
            cell(second),
        ],
        object_row(object, first, second) == seq![
            Some(object.id),
            Some(object.object_type),
            cell(first),
            cell(second),
        ],
{
}

/// A window holds the items from its offset on, as many as it may and as there are.
pub proof fn windows_show_what_they_cover<T>(items: Seq<T>, offset: int, limit: int)
    requires
        offset >= 0,
        limit >= 0,
    ensures
        ({
            let shown = window(items, offset, limit);
            &&& shown.len() <= limit
            &&& offset + shown.len() <= items.len() || shown.len() == 0
            &&& shown.len() < limit ==> offset + shown.len() >= items.len()
            &&& forall|i: int| 0 <= i < shown.len() ==> #[trigger] shown[i] == items[offset + i]
        }),
{
}

/// A page of the first listed table of a name holds a list for each row of the window, with one item
/// for each cell of the row: its text, or null where it is empty.
pub proof fn pages_hold_the_cells_of_their_rows(
    native: NativeModel,
    name: Seq<char>,
    i: int,
    offset: int,
    limit: int,
)
    requires
        0 <= i < native.metadata.tables.len(),
        native.metadata.tables[i].name == name,
        forall|j: int| 0 <= j < i ==> (#[trigger] native.metadata.tables[j]).name != name,
        0 <= offset < native.metadata.tables[i].row_count,
        limit > 0,
        table_rows(native, name) is Some,
    ensures
        ({
            let rows = table_rows(native, name)->0;
            let room = if offset <= rows.len() {
                rows.len() - offset
            } else {
                0
            };
            let count = if limit <= room {
                limit
            } else {
                room
            };
            page_json(native, name, offset, limit) == Ok::<Seq<u8>, Seq<char>>(
                encode_utf8(
                    json_text(
                        JsonModel::Object(
                            seq![
                                (
                                    "rows"@,
                                    JsonModel::List(
                                        Seq::new(
                                            count as nat,
                                            |r: int|
                                                JsonModel::List(
                                                    Seq::new(
                                                        rows[offset + r].len(),
                                                        |c: int|
                                                            match rows[offset + r][c] {
                                                                Some(text) => JsonModel::Text(text),
                                                                None => JsonModel::Null,
                                                            },
                                                    ),
                                                ),
                                        ),
                                    ),
                                ),
                            ],
                        ),
                    ),
                ),
            )
        }),
{
    first_table_is_first(native, name, i);
    let rows = table_rows(native, name)->0;
    let shown = window(rows, offset, limit);
    rows_are_written_as_they_are(shown);
    let items = rows_document(shown)->Object_0[0].1->List_0;
    let expected = Seq::new(
        shown.len(),
        |r: int|
            JsonModel::List(
                Seq::new(
                    rows[offset + r].len(),
                    |c: int|
                        match rows[offset + r][c] {
                            Some(text) => JsonModel::Text(text),
                            None => JsonModel::Null,
                        },
                ),
            ),
    );
    assert forall|r: int| 0 <= r < shown.len() implies items[r] == #[trigger] expected[r] by {
        assert(shown[r] == rows[offset + r]);
        assert(items[r]->List_0 == expected[r]->List_0);
    }
    assert(items == expected);
}

/// The first listed table of a name is found by it.
pub proof fn first_table_is_first(native: NativeModel, name: Seq<char>, i: int)
    requires
        0 <= i < native.metadata.tables.len(),
        native.metadata.tables[i].name == name,
        forall|j: int| 0 <= j < i ==> (#[trigger] native.metadata.tables[j]).name != name,
    ensures
        first_table(native.metadata.tables, name) == Some(native.metadata.tables[i]),
    decreases i,
{
    if i > 0 {
        let tables = native.metadata.tables;
        let rest = tables.drop_first();
        let shorter = NativeModel {
            metadata: crate::metadata::MetadataModel { tables: rest, ..native.metadata },
            ..native
        };
        assert(tables[0].name != name);
        assert forall|j: int| 0 <= j < i - 1 implies (#[trigger] rest[j]).name != name by {
            assert(rest[j] == tables[j + 1]);
        }
        first_table_is_first(shorter, name, i - 1);
    }
}

/// A page without room, or behind the last row, is empty; a listed table that no rows are known for
/// and a table that is not listed are refused by name.
pub proof fn other_pages_are_empty_or_refused(
    native: NativeModel,
    name: Seq<char>,
    i: int,
    offset: int,
    limit: int,
)
    requires
        offset >= 0,
        limit >= 0,
    ensures
        ({
            let tables = native.metadata.tables;
            let nothing = Ok::<Seq<u8>, Seq<char>>(
                encode_utf8(
                    json_text(JsonModel::Object(seq![("rows"@, JsonModel::List(Seq::empty()))])),
                ),
            );
            let found = 0 <= i < tables.len() && tables[i].name == name && forall|j: int|
                0 <= j < i ==> (#[trigger] tables[j]).name != name;
            &&& found && (limit == 0 || offset >= tables[i].row_count) ==> page_json(
                native,
                name,
                offset,
                limit,
            ) == nothing
            &&& found && limit > 0 && offset < tables[i].row_count && table_rows(native, name) is None
                ==> page_json(native, name, offset, limit) == Err::<Seq<u8>, Seq<char>>(
                "Native OCEL table '"@ + name + "' is not recognized."@,
            )
            &&& (forall|j: int| 0 <= j < tables.len() ==> (#[trigger] tables[j]).name != name)
                ==> page_json(native, name, offset, limit) == Err::<Seq<u8>, Seq<char>>(
                "Native OCEL table '"@ + name + "' is not available."@,
            )
        }),
{
    let tables = native.metadata.tables;
    if 0 <= i < tables.len() && tables[i].name == name && forall|j: int|
        0 <= j < i ==> (#[trigger] tables[j]).name != name {
        first_table_is_first(native, name, i);
        let none = Seq::<Seq<Option<Seq<char>>>>::empty();
        rows_are_written_as_they_are(none);
        assert(rows_document(none)->Object_0[0].1->List_0 == Seq::<JsonModel>::empty());
    }
    if forall|j: int| 0 <= j < tables.len() ==> (#[trigger] tables[j]).name != name {
        crate::rows::unlisted_table_is_not_found(tables, name);
    }
}

/// Pages of rows and pages as documents agree on what they show and on what they refuse.
pub proof fn pages_show_windows(
    native: NativeModel,
    table: crate::metadata::TableModel,
    offset: int,
    limit: int,
)
    requires
        offset >= 0,
        limit >= 0,
    ensures
        limit == 0 || offset >= table.row_count ==> page(native, table, offset, limit) == Ok::<
            Seq<Seq<Option<Seq<char>>>>,
            Seq<char>,
        >(Seq::empty()),
        limit > 0 && offset < table.row_count ==> page(native, table, offset, limit) == match table_rows(
            native,
            table.name,
        ) {
            Some(rows) => Ok::<Seq<Seq<Option<Seq<char>>>>, Seq<char>>(window(rows, offset, limit)),
            None => Err("Native OCEL table '"@ + table.name + "' is not recognized."@),
        },
{
}

/// Values as texts: a time as RFC 3339, an integer in decimal, a number and a text as they are, a
/// truth value by its name, and nothing for no value.
pub proof fn values_become_their_texts(value: ValueModel)
    ensures
        value_string(value) == match value {
            ValueModel::Time(instant) => rfc3339_text(instant),
            ValueModel::Integer(i) => decimal(i),
            ValueModel::Float(text) => text,
            ValueModel::Boolean(true) => "true"@,
            ValueModel::Boolean(false) => "false"@,
            ValueModel::Text(text) => text,
            ValueModel::Null => Seq::<char>::empty(),
        },
{
}

/// The value of an attribute is that of the first one of the name, and there is none where no
/// attribute has the name.
pub proof fn first_value_is_first(attributes: Seq<EventAttributeModel>, name: Seq<char>)
    ensures
        match first_value(attributes, name) {
            Some(text) => exists|a: int|
                {
                    &&& 0 <= a < attributes.len()
                    &&& (#[trigger] attributes[a]).name == name
                    &&& text == value_string(attributes[a].value)
                    &&& forall|b: int| 0 <= b < a ==> (#[trigger] attributes[b]).name != name
                },
            None => forall|a: int| 0 <= a < attributes.len() ==> (#[trigger] attributes[a]).name != name,
        },
    decreases attributes.len(),
{
    if attributes.len() > 0 && attributes[0].name != name {
        let rest = attributes.drop_first();
        first_value_is_first(rest, name);
        match first_value(rest, name) {
            Some(text) => {
                let a = choose|a: int|
                    {
                        &&& 0 <= a < rest.len()
                        &&& (#[trigger] rest[a]).name == name
                        &&& text == value_string(rest[a].value)
                        &&& forall|b: int| 0 <= b < a ==> (#[trigger] rest[b]).name != name
                    };
                assert forall|b: int| 0 <= b < a + 1 implies (#[trigger] attributes[b]).name != name by {
                    if b > 0 {
                        assert(rest[b - 1] == attributes[b]);
                    }
                }
                assert(attributes[a + 1] == rest[a]);
            },
            None => {
                assert forall|a: int| 0 <= a < attributes.len() implies (#[trigger] attributes[a]).name
                    != name by {
                    if a > 0 {
                        assert(rest[a - 1] == attributes[a]);
                    }
                }
            },
        }
    }
}

/// The type of a table is the first part of the first pair whose second part is the table, and there
/// is none where no pair names the table.
pub proof fn type_of_table_is_first(pairs: Seq<(Seq<char>, Seq<char>)>, table: Seq<char>)
    ensures
        match type_of_table(pairs, table) {
            Some(found) => exists|i: int|
                {
                    &&& 0 <= i < pairs.len()
                    &&& (#[trigger] pairs[i]).1 == table
                    &&& pairs[i].0 == found
                    &&& forall|j: int| 0 <= j < i ==> (#[trigger] pairs[j]).1 != table
                },
            None => forall|i: int| 0 <= i < pairs.len() ==> (#[trigger] pairs[i]).1 != table,
        },
    decreases pairs.len(),
{
    if pairs.len() > 0 && pairs[0].1 != table {
        let rest = pairs.drop_first();
        type_of_table_is_first(rest, table);
        match type_of_table(rest, table) {
            Some(found) => {
                let i = choose|i: int|
                    {
                        &&& 0 <= i < rest.len()
                        &&& (#[trigger] rest[i]).1 == table
                        &&& rest[i].0 == found
                        &&& forall|j: int| 0 <= j < i ==> (#[trigger] rest[j]).1 != table
                    };
                assert forall|j: int| 0 <= j < i + 1 implies (#[trigger] pairs[j]).1 != table by {
                    if j > 0 {
                        assert(rest[j - 1] == pairs[j]);
                    }
                }
                assert(pairs[i + 1] == rest[i]);
            },
            None => {
                assert forall|i: int| 0 <= i < pairs.len() implies (#[trigger] pairs[i]).1 != table by {
                    if i > 0 {
                        assert(rest[i - 1] == pairs[i]);
                    }
                }
            },
        }
    }
}

/// A further event comes last in the table of its type, with its id, its time and one cell for each
/// attribute of the type, the value of the first attribute of that name; it is in no other table.
pub proof fn typed_events_come_one_by_one(
    events: Seq<EventModel>,
    event: EventModel,
    used_type: Seq<char>,
    definition: TypeModel,
    a: int,
)
    ensures
        ({
            let before = typed_event_rows(events, used_type, definition);
            let after = typed_event_rows(events.push(event), used_type, definition);
            let row = after.last();
            &&& typed_event_rows(Seq::empty(), used_type, definition).len() == 0
            &&& event.event_type != used_type ==> after == before
            &&& event.event_type == used_type ==> {
                &&& after == before.push(row)
                &&& row.len() == 2 + definition.attributes.len()
                &&& row[0] == Some(event.id)
                &&& row[1] == Some(rfc3339_text(event.time))
                &&& 0 <= a < definition.attributes.len() ==> row[2 + a] == first_value(
                    event.attributes,
                    definition.attributes[a].name,
                )
            }
        }),
{
    assert(events.push(event).drop_last() == events);
}

/// The changes of a further object come last in the table of its type, one row for each, with the id
/// of the object, the time and the name of the change and one cell for each attribute of the type, of
/// which those of that name show the new value; they are in no other table.
pub proof fn typed_changes_come_one_by_one(
    objects: Seq<ObjectModel>,
    object: ObjectModel,
    used_type: Seq<char>,
    definition: TypeModel,
    k: int,
    a: int,
)
    ensures
        ({
            let before = typed_object_rows(objects, used_type, definition);
            let after = typed_object_rows(objects.push(object), used_type, definition);
            let row = after[before.len() + k];
            let change = object.attributes[k];
            &&& typed_object_rows(Seq::empty(), used_type, definition).len() == 0
            &&& object.object_type != used_type ==> after == before
            &&& object.object_type == used_type ==> {
                &&& after.len() == before.len() + object.attributes.len()
                &&& after.take(before.len() as int) == before
                &&& 0 <= k < object.attributes.len() ==> {
                    &&& row.len() == 3 + definition.attributes.len()
                    &&& row[0] == Some(object.id)
                    &&& row[1] == Some(rfc3339_text(change.time))
                    &&& row[2] == Some(change.name)
                    &&& 0 <= a < definition.attributes.len() ==> row[3 + a]
                        == if definition.attributes[a].name == change.name {
                        Some(value_string(change.value))
                    } else {
                        None
                    }
                }
            }
        }),
{
    assert(objects.push(object).drop_last() == objects);
}

/// A page of the table of an event type is the window of the rows of its events, of the table of an
/// object type that of the changes of its objects; a type without a definition and a table without a
/// type are refused by name.
pub proof fn typed_pages_show_windows(
    native: NativeModel,
    table: Seq<char>,
    d: int,
    offset: int,
    limit: int,
)
    ensures
        ({
            let events = native.metadata.event_types;
            let objects = native.metadata.object_types;
            let answer = typed_page(native, table, offset, limit);
            match type_of_table(native.metadata.event_table_by_type, table) {
                Some(name) => {
                    &&& (0 <= d < events.len() && events[d].name == name && forall|e: int|
                        0 <= e < d ==> (#[trigger] events[e]).name != name) ==> answer == Ok::<
                        Seq<Seq<Option<Seq<char>>>>,
                        Seq<char>,
                    >(window(typed_event_rows(native.ocel.events, name, events[d]), offset, limit))
                    &&& (forall|e: int| 0 <= e < events.len() ==> (#[trigger] events[e]).name != name)
                        ==> answer == Err::<Seq<Seq<Option<Seq<char>>>>, Seq<char>>(
                        "Missing event type definition for '"@ + name + "'."@,
                    )
                },
                None => match type_of_table(native.metadata.object_table_by_type, table) {
                    Some(name) => {
                        &&& (0 <= d < objects.len() && objects[d].name == name && forall|e: int|
                            0 <= e < d ==> (#[trigger] objects[e]).name != name) ==> answer == Ok::<
                            Seq<Seq<Option<Seq<char>>>>,
                            Seq<char>,
                        >(
                            window(
                                typed_object_rows(native.ocel.objects, name, objects[d]),
                                offset,
                                limit,
                            ),
                        )
                        &&& (forall|e: int|
                            0 <= e < objects.len() ==> (#[trigger] objects[e]).name != name) ==> answer
                            == Err::<Seq<Seq<Option<Seq<char>>>>, Seq<char>>(
                            "Missing object type definition for '"@ + name + "'."@,
                        )
                    },
                    None => answer == Err::<Seq<Seq<Option<Seq<char>>>>, Seq<char>>(
                        "Native OCEL table '"@ + table + "' is not recognized."@,
                    ),
                },
            }
        }),
{
    let events = native.metadata.event_types;
    let objects = native.metadata.object_types;
    if let Some(name) = type_of_table(native.metadata.event_table_by_type, table) {
        if 0 <= d < events.len() && events[d].name == name && forall|e: int|
            0 <= e < d ==> (#[trigger] events[e]).name != name {
            crate::definitions::type_position_is(events, name, d);
        }
    } else if let Some(name) = type_of_table(native.metadata.object_table_by_type, table) {
        if 0 <= d < objects.len() && objects[d].name == name && forall|e: int|
            0 <= e < d ==> (#[trigger] objects[e]).name != name {
            crate::definitions::type_position_is(objects, name, d);
        }
    }
}

/// The logical type of a declared type goes by what its name has in lower case: first `bool`, then
/// `int` or `long`, then `float`, `double`, `number` or `real`, else strings.
pub proof fn logical_types_go_by_parts(declared_type: Seq<char>)
    ensures
        ({
            let lowered = lower_text(declared_type);
            let logical = logical_text(declared_type);
            let whole = has_part(lowered, "int"@) || has_part(lowered, "long"@);
            let broken = has_part(lowered, "float"@) || has_part(lowered, "double"@) || has_part(
                lowered,
                "number"@,
            ) || has_part(lowered, "real"@);
            &&& has_part(lowered, "bool"@) ==> logical == "boolean"@
            &&& !has_part(lowered, "bool"@) && whole ==> logical == "integer"@
            &&& !has_part(lowered, "bool"@) && !whole && broken ==> logical == "float"@
            &&& !has_part(lowered, "bool"@) && !whole && !broken ==> logical == "string"@
        }),
{
}

/// Each attribute has a column in its place, of its logical type, under the name assigned to it.
pub proof fn attributes_keep_their_columns(attributes: Seq<AttributeDefinitionModel>, a: int)
    requires
        0 <= a < attributes.len(),
    ensures
        ({
            let columns = attribute_column_models(attributes);
            &&& columns.len() == attributes.len()
            &&& columns[a].logical_type == logical_text(attributes[a].value_type)
            &&& columns[a].name == assigned(
                Seq::new(attributes.len(), |b: int| attributes[b].name),
                Set::empty(),
            )[a]
        }),
{
    assert(attributes.map_values(|b: AttributeDefinitionModel| b.name) == Seq::new(
        attributes.len(),
        |b: int| attributes[b].name,
    ));
}

/// Columns are well shaped exactly where there are some, as many as names, and all as long as each
/// other; they are refused by counts, for want of any, or for their lengths, in this order.
pub proof fn batches_are_refused_by_shape(names: Seq<Seq<char>>, columns: Seq<Seq<Seq<char>>>)
    ensures
        well_shaped(names, columns) <==> {
            &&& names.len() == columns.len()
            &&& columns.len() != 0
            &&& forall|c: int, d: int|
                0 <= c < columns.len() && 0 <= d < columns.len() ==> (#[trigger] columns[c]).len() == (
                #[trigger] columns[d]).len()
        },
        names.len() != columns.len() ==> batch_refusal(names, columns)
            == "Invalid argument error: number of columns("@ + decimal(columns.len() as int)
            + ") must match number of fields("@ + decimal(names.len() as int) + ") in schema"@,
        names.len() == columns.len() && columns.len() == 0 ==> batch_refusal(names, columns)
            == "Invalid argument error: must either specify a row count or at least one column"@,
        names.len() == columns.len() && columns.len() > 0 ==> batch_refusal(names, columns)
            == "Invalid argument error: all columns in a record batch must have the same length"@,
        well_shaped(names, columns) ==> arrow_stream(names, columns) == Ok::<Seq<u8>, Seq<char>>(
            ipc_bytes(names, seq![columns]),
        ),
        !well_shaped(names, columns) ==> arrow_stream(names, columns) == Err::<Seq<u8>, Seq<char>>(
            "Could not create native OCEL Arrow record batch: "@ + batch_refusal(names, columns),
        ),
{
    if names.len() == columns.len() && columns.len() != 0 && forall|c: int, d: int|
        0 <= c < columns.len() && 0 <= d < columns.len() ==> (#[trigger] columns[c]).len() == (
        #[trigger] columns[d]).len() {
        assert forall|c: int| 0 <= c < columns.len() implies (#[trigger] columns[c]).len()
            == columns[0].len() by {}
    }
}

/// The bytes of a column add up text by text; columns fit within 32-bit offsets, and names within two
/// gigabytes together with 256 bytes for each.
pub proof fn bytes_add_up(column: Seq<Seq<char>>, text: Seq<char>, columns: Seq<Seq<Seq<char>>>)
    ensures
        column_bytes(Seq::empty()) == 0,
        column_bytes(column.push(text)) == column_bytes(column) + encode_utf8(text).len(),
        columns_fit(columns) <==> forall|c: int|
            0 <= c < columns.len() ==> column_bytes(#[trigger] columns[c]) <= 2147483647,
        names_fit(column) <==> column_bytes(column) + 256 * column.len() <= 2147483647,
{
    assert(column.push(text).drop_last() == column);
}

/// Outcomes are collected in their order: all texts where all are texts, else the first error; an
/// error in a nested value is labelled as such.
pub proof fn the_first_error_stops(outcomes: Seq<Result<Seq<char>, Seq<char>>>, i: int)
    ensures
        ({
            let all = collected(outcomes);
            let nested = nested_texts(outcomes);
            &&& (forall|k: int| 0 <= k < outcomes.len() ==> (#[trigger] outcomes[k]) is Ok) ==> {
                &&& all is Ok
                &&& nested == all
                &&& all->Ok_0.len() == outcomes.len()
                &&& forall|k: int| 0 <= k < outcomes.len() ==> #[trigger] all->Ok_0[k] == outcomes[k]->Ok_0
            }
            &&& (0 <= i < outcomes.len() && outcomes[i] is Err && forall|k: int|
                0 <= k < i ==> (#[trigger] outcomes[k]) is Ok) ==> {
                &&& all == Err::<Seq<Seq<char>>, Seq<char>>(outcomes[i]->Err_0)
                &&& nested == Err::<Seq<Seq<char>>, Seq<char>>(
                    "Could not serialize native OCEL nested value: "@ + outcomes[i]->Err_0,
                )
            }
        }),
{
    let marked = outcomes.map_values(
        |o: Result<Seq<char>, Seq<char>>| labelled(o, nested_label()),
    );
    first_error_is_collected(outcomes, i);
    first_error_is_collected(marked, i);
    if forall|k: int| 0 <= k < outcomes.len() ==> (#[trigger] outcomes[k]) is Ok {
        assert forall|k: int| 0 <= k < marked.len() implies (#[trigger] marked[k]) is Ok by {
            assert(outcomes[k] is Ok);
        }
        assert(marked == outcomes) by {
            assert forall|k: int| 0 <= k < marked.len() implies marked[k] == outcomes[k] by {
                assert(outcomes[k] is Ok);
            }
        }
    }
    if 0 <= i < outcomes.len() && outcomes[i] is Err && forall|k: int|
        0 <= k < i ==> (#[trigger] outcomes[k]) is Ok {
        assert forall|k: int| 0 <= k < i implies (#[trigger] marked[k]) is Ok by {
            assert(outcomes[k] is Ok);
        }
        assert(marked[i] is Err);
    }
}

proof fn first_error_is_collected(outcomes: Seq<Result<Seq<char>, Seq<char>>>, i: int)
    ensures
        ({
            let all = collected(outcomes);
            &&& (forall|k: int| 0 <= k < outcomes.len() ==> (#[trigger] outcomes[k]) is Ok) ==> {
                &&& all is Ok
                &&& all->Ok_0.len() == outcomes.len()
                &&& forall|k: int| 0 <= k < outcomes.len() ==> #[trigger] all->Ok_0[k] == outcomes[k]->Ok_0
            }
            &&& (0 <= i < outcomes.len() && outcomes[i] is Err && forall|k: int|
                0 <= k < i ==> (#[trigger] outcomes[k]) is Ok) ==> all == Err::<
                Seq<Seq<char>>,
                Seq<char>,
            >(outcomes[i]->Err_0)
        }),
    decreases outcomes.len(),
{
    if outcomes.len() > 0 {
        let start = outcomes.drop_last();
        first_error_is_collected(start, i);
        if forall|k: int| 0 <= k < outcomes.len() ==> (#[trigger] outcomes[k]) is Ok {
            assert forall|k: int| 0 <= k < start.len() implies (#[trigger] start[k]) is Ok by {
                assert(outcomes[k] is Ok);
            }
            assert(outcomes[outcomes.len() - 1] is Ok);
        }
        if 0 <= i < outcomes.len() && outcomes[i] is Err && forall|k: int|
            0 <= k < i ==> (#[trigger] outcomes[k]) is Ok {
            assert forall|k: int| 0 <= k < i && k < start.len() implies (#[trigger] start[k]) is Ok by {
                assert(outcomes[k] is Ok);
            }
            if i < start.len() {
                assert(start[i] is Err);
            }
        }
    }
}

/// Failures say which step, which document or which import failed, and then the detail.
pub proof fn failures_name_what_failed(detail: Seq<char>)
    ensures
        stream_failure_text(StreamStep::Batch, detail)
            == "Could not create native OCEL Arrow record batch: "@ + detail,
        stream_failure_text(StreamStep::Open, detail)
            == "Could not create native OCEL Arrow IPC writer: "@ + detail,
        stream_failure_text(StreamStep::Write, detail)
            == "Could not write native OCEL Arrow IPC batch: "@ + detail,
        stream_failure_text(StreamStep::Finish, detail)
            == "Could not finish native OCEL Arrow IPC stream: "@ + detail,
        labelled(Err::<Seq<u8>, Seq<char>>(detail), document_label(Document::Metadata)) == Err::<
            Seq<u8>,
            Seq<char>,
        >("Could not serialize native OCEL metadata: "@ + detail),
        labelled(Err::<Seq<u8>, Seq<char>>(detail), document_label(Document::Catalog)) == Err::<
            Seq<u8>,
            Seq<char>,
        >("Could not serialize native operation catalog: "@ + detail),
        labelled(Err::<Seq<u8>, Seq<char>>(detail), document_label(Document::Rows)) == Err::<
            Seq<u8>,
            Seq<char>,
        >("Could not serialize native OCEL table rows: "@ + detail),
        labelled(Err::<Seq<char>, Seq<char>>(detail), nested_label()) == Err::<Seq<char>, Seq<char>>(
            "Could not serialize native OCEL nested value: "@ + detail,
        ),
        import_failure_text(ImportFormat::Json, detail) == "Rust OCEL JSON import failed: "@ + detail,
        import_failure_text(ImportFormat::Xml, detail) == "Rust OCEL XML import panicked."@,
        import_failure_text(ImportFormat::Sqlite, detail) == "Rust OCEL SQLite import failed: "@ + detail,
{
}

/// What could be written passes through labels, and documents are encoded as UTF-8.
pub proof fn successes_pass_through(text: Seq<char>, message: Seq<char>, label: Seq<char>)
    ensures
        labelled(Ok::<Seq<char>, Seq<char>>(text), label) == Ok::<Seq<char>, Seq<char>>(text),
        encoded(Ok(text)) == Ok::<Seq<u8>, Seq<char>>(encode_utf8(text)),
        encoded(Err(message)) == Err::<Seq<u8>, Seq<char>>(message),
        labelled(encoded(Ok(text)), label) == Ok::<Seq<u8>, Seq<char>>(encode_utf8(text)),
{
}

/// A query asks for the table that it names, unless it names another operation than that on tables or
/// cannot be parsed; it is answered by the stream of the table.
pub proof fn queries_ask_for_their_table(
    native: NativeModel,
    operation: Seq<char>,
    table: Seq<char>,
    message: Seq<char>,
)
    ensures
        query_target(Ok(QueryModel { operation: None, table })) == Ok::<Seq<char>, Seq<char>>(table),
        query_target(Ok(QueryModel { operation: Some("ocel.query.table"@), table })) == Ok::<
            Seq<char>,
            Seq<char>,
        >(table),
        operation != "ocel.query.table"@ ==> query_target(
            Ok(QueryModel { operation: Some(operation), table }),
        ) == Err::<Seq<char>, Seq<char>>("Unsupported native OCEL query operation: "@ + operation),
        query_target(Err(message)) == Err::<Seq<char>, Seq<char>>(
            "Could not parse native OCEL query JSON: "@ + message,
        ),
        query_stream(native, Ok(QueryModel { operation: None, table })) == frame_stream(
            table_frame(native, table),
        ),
        query_stream(native, Ok(QueryModel { operation: Some("ocel.query.table"@), table }))
            == frame_stream(table_frame(native, table)),
        answer_fits(native, Ok(QueryModel { operation: Some("ocel.query.table"@), table }))
            == frame_fits(table_frame(native, table)),
        operation != "ocel.query.table"@ ==> query_stream(
            native,
            Ok(QueryModel { operation: Some(operation), table }),
        ) == Err::<Seq<u8>, Seq<char>>("Unsupported native OCEL query operation: "@ + operation),
        query_stream(native, Err(message)) == Err::<Seq<u8>, Seq<char>>(
            "Could not parse native OCEL query JSON: "@ + message,
        ),
        answer_fits(native, Ok(QueryModel { operation: None, table })) == frame_fits(
            table_frame(native, table),
        ),
        answer_fits(native, Err(message)),
        operation != "ocel.query.table"@ ==> answer_fits(
            native,
            Ok(QueryModel { operation: Some(operation), table }),
        ),
{
}

/// What parsing a query yields is handed over as it is, and so is a registry that may be missing.
pub proof fn requests_are_handed_over(
    request: Result<QueryRequest, String>,
    registry: Option<&Registry>,
)
    ensures
        request matches Ok(query) ==> query_outcome(request) == Ok::<QueryModel, Seq<char>>(
            query.deep_view(),
        ),
        request matches Err(message) ==> query_outcome(request) == Err::<QueryModel, Seq<char>>(
            message@,
        ),
        registry matches Some(there) ==> registry_view(registry) == Some(there@),
        registry is None ==> registry_view(registry) is None,
{
}

/// A registered log gets the next handle, the handle after it comes next, and what was registered
/// stays; freeing takes just the log of its handle out and gives no handle back.
pub proof fn handles_are_given_once(
    registry: RegistryModel,
    native: NativeOcel,
    handle: i64,
    other: i64,
)
    ensures
        registry.next < i64::MAX ==> registry.registered(native).next == registry.next + 1,
        registry.next == i64::MAX ==> registry.registered(native).next == i64::MIN,
        registry.registered(native).natives.contains_key(registry.next),
        registry.registered(native).natives[registry.next] == native,
        other != registry.next ==> (registry.registered(native).natives.contains_key(other)
            <==> registry.natives.contains_key(other)),
        other != registry.next && registry.natives.contains_key(other) ==> registry.registered(
            native,
        ).natives[other] == registry.natives[other],
        registry.freed(handle).next == registry.next,
        handle > 0 ==> !registry.freed(handle).natives.contains_key(handle),
        handle <= 0 ==> registry.freed(handle) == registry,
        other != handle ==> (registry.freed(handle).natives.contains_key(other)
            <==> registry.natives.contains_key(other)),
        other != handle && registry.natives.contains_key(other) ==> registry.freed(
            handle,
        ).natives[other] == registry.natives[other],
{
}

/// A handle leads to the log registered under it; one that is not positive, a registry that is
/// missing and a handle that is not in use are refused, in this order.
pub proof fn handles_lead_to_their_logs(registry: RegistryModel, handle: i64)
    ensures
        handle <= 0 ==> native_at(Some(registry), handle) == Err::<NativeOcel, Seq<char>>(
            "Invalid native OCEL handle."@,
        ),
        handle <= 0 ==> native_at(None, handle) == Err::<NativeOcel, Seq<char>>(
            "Invalid native OCEL handle."@,
        ),
        handle > 0 ==> native_at(None, handle) == Err::<NativeOcel, Seq<char>>(
            "Native OCEL registry is poisoned."@,
        ),
        poisoned_text() == "Native OCEL registry is poisoned."@,
        handle > 0 && registry.natives.contains_key(handle) ==> native_at(Some(registry), handle) == Ok::<
            NativeOcel,
            Seq<char>,
        >(registry.natives[handle]),
        handle > 0 && !registry.natives.contains_key(handle) ==> native_at(Some(registry), handle)
            == Err::<NativeOcel, Seq<char>>(
            "Native OCEL handle "@ + decimal(handle as int) + " is not available."@,
        ),
{
}

/// A format goes by its name in lower case.
pub proof fn formats_go_by_their_names(name: Seq<char>)
    ensures
        ({
            let lowered = lower_text(name);
            &&& format_of(name) == Some(ImportFormat::Json) <==> lowered == "json"@ || lowered
                == "jsonocel"@
            &&& format_of(name) == Some(ImportFormat::Xml) <==> lowered == "xml"@ || lowered == "xmlocel"@
            &&& format_of(name) == Some(ImportFormat::Sqlite) <==> lowered == "sqlite"@ || lowered
                == "sqlite3"@ || lowered == "db"@ || lowered == "db3"@
        }),
{
    reveal_strlit("json");
    reveal_strlit("jsonocel");
    reveal_strlit("xml");
    reveal_strlit("xmlocel");
    reveal_strlit("sqlite");
    reveal_strlit("sqlite3");
    reveal_strlit("db");
    reveal_strlit("db3");
    assert("json"@.len() == 4 && "jsonocel"@.len() == 8);
    assert("xml"@.len() == 3 && "xmlocel"@.len() == 7);
    assert("sqlite"@.len() == 6 && "sqlite3"@.len() == 7);
    assert("db"@.len() == 2 && "db3"@.len() == 3);
    assert("xml"@[0] != "db3"@[0]);
    assert("xmlocel"@[0] != "sqlite3"@[0]);
}

/// Bytes are the text that they encode, and others are refused.
pub proof fn bytes_are_their_text(bytes: Seq<u8>)
    ensures
        valid_utf8(bytes) ==> utf8_text(bytes) == Ok::<Seq<char>, Seq<char>>(decode_utf8(bytes)),
        !valid_utf8(bytes) ==> utf8_text(bytes) == Err::<Seq<char>, Seq<char>>(
            "Expected UTF-8 data from Java: "@ + utf8_refusal(bytes),
        ),
{
}

/// Requests are answered from the log behind their handle; what is wrong is refused in this order:
/// the bytes of the name, the numbers, the handle.
pub proof fn requests_are_answered_from_their_log(
    registry: Option<RegistryModel>,
    handle: i64,
    name: Seq<u8>,
    offset: i64,
    limit: i32,
    request: Result<QueryModel, Seq<char>>,
)
    ensures
        ({
            let answer = page_answer(registry, handle, name, offset, limit);
            match native_at(registry, handle) {
                Ok(native) => {
                    &&& spec_answer(registry, handle) == Ok::<Seq<u8>, Seq<char>>(
                        encode_utf8(json_text(spec_document(native.deep_view()))),
                    )
                    &&& query_answer(registry, handle, request) == query_stream(
                        native.deep_view(),
                        request,
                    )
                    &&& query_answer_fits(registry, handle, request) == answer_fits(
                        native.deep_view(),
                        request,
                    )
                    &&& valid_utf8(name) && offset >= 0 && limit >= 0 ==> answer == page_json(
                        native.deep_view(),
                        decode_utf8(name),
                        offset as usize as int,
                        limit as int,
                    )
                },
                Err(message) => {
                    &&& spec_answer(registry, handle) == Err::<Seq<u8>, Seq<char>>(message)
                    &&& query_answer(registry, handle, request) == Err::<Seq<u8>, Seq<char>>(message)
                    &&& query_answer_fits(registry, handle, request)
                    &&& valid_utf8(name) && offset >= 0 && limit >= 0 ==> answer == Err::<
                        Seq<u8>,
                        Seq<char>,
                    >(message)
                },
            }
        }),
        !valid_utf8(name) ==> page_answer(registry, handle, name, offset, limit) == Err::<
            Seq<u8>,
            Seq<char>,
        >("Expected UTF-8 data from Java: "@ + utf8_refusal(name)),
        valid_utf8(name) && (offset < 0 || limit < 0) ==> page_answer(
            registry,
            handle,
            name,
            offset,
            limit,
        ) == Err::<Seq<u8>, Seq<char>>("Offset and limit must be non-negative."@),
{
}

/// A loaded log has the metadata of its log.
pub proof fn loaded_logs_have_their_metadata(native: NativeModel, ocel: OcelModel)
    ensures
        native.well_formed() <==> native.metadata == metadata_of(native.ocel),
        metadata_of(ocel).event_types == event_types_of(ocel),
        metadata_of(ocel).object_types == object_types_of(ocel),
{
}

} // verus!

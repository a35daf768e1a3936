//! The JSON documents of the library and the outcomes of writing them.
use vstd::prelude::*;
use vstd::string::StrSliceExecFns;
use vstd::utf8::encode_utf8;

use crate::metadata::{
    ColumnDefinition, ColumnModel, NativeModel, NativeOcel, TableDefinition, TableModel,
};
use crate::ocel::{AttributeDefinition, AttributeDefinitionModel};
use crate::text::{byte_outcome, prefixed, text_outcome};

verus! {

/// `serde_json::Value`: a JSON document.
#[verifier::external_type_specification]
#[verifier::external_body]
pub struct ExValue(serde_json::Value);

/// What a JSON document holds.
pub enum JsonModel {
    Null,
    Text(Seq<char>),
    Number(int),
    List(Seq<JsonModel>),
    Object(Seq<(Seq<char>, JsonModel)>),
}

/// The contents of a `serde_json::Value`.
pub uninterp spec fn json_of(value: serde_json::Value) -> JsonModel;

/// The text that `serde_json::to_string` writes for a document.
pub uninterp spec fn json_text(document: JsonModel) -> Seq<char>;

/// `serde_json::Value::Null` is the null document.
#[verifier::external_body]
pub(crate) fn value_null() -> (r: serde_json::Value)
    ensures
        json_of(r) == JsonModel::Null,
{
    serde_json::Value::Null
}

/// `serde_json::Value::String` holds the text.
#[verifier::external_body]
pub(crate) fn value_text(text: &str) -> (r: serde_json::Value)
    ensures
        json_of(r) == JsonModel::Text(text@),
{
    serde_json::Value::String(text.to_string())
}

/// `serde_json::Value::from` holds the number.
#[verifier::external_body]
pub(crate) fn value_number(number: u64) -> (r: serde_json::Value)
    ensures
        json_of(r) == JsonModel::Number(number as int),
{
    serde_json::Value::from(number)
}

/// `serde_json::Value::Array` holds the documents in their order.
#[verifier::external_body]
pub(crate) fn value_list(items: Vec<serde_json::Value>) -> (r: serde_json::Value)
    ensures
        json_of(r) == JsonModel::List(items@.map_values(|item: serde_json::Value| json_of(item))),
{
    serde_json::Value::Array(items)
}

/// `serde_json::Value::Object`, collected from fields with different names, holds them in their
/// order: the crate's `preserve_order` feature backs an object by a map that keeps the order of
/// insertion.
#[verifier::external_body]
pub(crate) fn value_object(fields: Vec<(String, serde_json::Value)>) -> (r: serde_json::Value)
    requires
        forall|i: int, j: int| 0 <= i < j < fields@.len() ==> fields@[i].0@ != fields@[j].0@,
    ensures
        json_of(r) == JsonModel::Object(
            fields@.map_values(|field: (String, serde_json::Value)| (field.0@, json_of(field.1))),
        ),
{
    serde_json::Value::Object(fields.into_iter().collect())
}

/// `serde_json::to_string` on a document. It does not fail: the keys of a `Value` are texts, and
/// memory takes every byte. The text depends on what the document holds alone.
#[verifier::external_body]
pub(crate) fn write_json(document: &serde_json::Value) -> (r: Result<String, String>)
    ensures
        r is Ok,
        r->Ok_0@ == json_text(json_of(*document)),
{
    serde_json::to_string(document).map_err(|err| err.to_string())
}

/// The outcome with its error, if any, put behind a label.
pub open spec fn labelled<T>(outcome: Result<T, Seq<char>>, label: Seq<char>) -> Result<
    T,
    Seq<char>,
> {
    match outcome {
        Ok(value) => Ok(value),
        Err(message) => Err(label + message),
    }
}

/// The outcome of writing a document as UTF-8 bytes.
pub open spec fn encoded(outcome: Result<Seq<char>, Seq<char>>) -> Result<Seq<u8>, Seq<char>> {
    match outcome {
        Ok(text) => Ok(encode_utf8(text)),
        Err(message) => Err(message),
    }
}

/// The label of an error in writing a nested value.
pub open spec fn nested_label() -> Seq<char> {
    "Could not serialize native OCEL nested value: "@
}

/// The documents that answer the host.
#[derive(Clone, Copy, Debug, PartialEq, Eq)]
pub enum Document {
    Metadata,
    Catalog,
    Rows,
}

/// The label of an error in writing a document.
pub open spec fn document_label(document: Document) -> Seq<char> {
    match document {
        Document::Metadata => "Could not serialize native OCEL metadata: "@,
        Document::Catalog => "Could not serialize native operation catalog: "@,
        Document::Rows => "Could not serialize native OCEL table rows: "@,
    }
}

/// An object with two text fields.
pub open spec fn text_pair(
    first: Seq<char>,
    first_text: Seq<char>,
    second: Seq<char>,
    second_text: Seq<char>,
) -> JsonModel {
    JsonModel::Object(
        seq![(first, JsonModel::Text(first_text)), (second, JsonModel::Text(second_text))],
    )
}

/// An attribute definition as a document.
pub open spec fn attribute_document(attribute: AttributeDefinitionModel) -> JsonModel {
    text_pair("name"@, attribute.name, "value_type"@, attribute.value_type)
}

/// Attribute definitions as a document.
pub open spec fn attributes_document(attributes: Seq<AttributeDefinitionModel>) -> JsonModel {
    JsonModel::List(attributes.map_values(|a: AttributeDefinitionModel| attribute_document(a)))
}

/// A column as a document.
pub open spec fn column_document(column: ColumnModel) -> JsonModel {
    text_pair("name"@, column.name, "type"@, column.logical_type)
}

/// A table as a document.
pub open spec fn table_document(table: TableModel) -> JsonModel {
    JsonModel::Object(
        seq![
            ("name"@, JsonModel::Text(table.name)),
            ("kind"@, JsonModel::Text(table.kind)),
            ("row_count"@, JsonModel::Number(table.row_count)),
            (
                "columns"@,
                JsonModel::List(table.columns.map_values(|c: ColumnModel| column_document(c))),
            ),
        ],
    )
}

/// What a loaded log offers, as a document.
pub open spec fn spec_document(native: NativeModel) -> JsonModel {
    JsonModel::Object(
        seq![
            ("backend"@, JsonModel::Text("Rust process_mining 0.3.19 JNI"@)),
            ("load_nanos"@, JsonModel::Number(native.load_nanos)),
            (
                "tables"@,
                JsonModel::List(
                    native.metadata.tables.map_values(|t: TableModel| table_document(t)),
                ),
            ),
        ],
    )
}

/// An operation as a document.
pub open spec fn operation_document(
    name: Seq<char>,
    description: Seq<char>,
    input: Seq<char>,
    output: Seq<char>,
) -> JsonModel {
    JsonModel::Object(
        seq![
            ("name"@, JsonModel::Text(name)),
            ("description"@, JsonModel::Text(description)),
            ("input"@, JsonModel::Text(input)),
            ("output"@, JsonModel::Text(output)),
        ],
    )
}

/// The operations of the library, as a document.
pub open spec fn catalog_document() -> JsonModel {
    JsonModel::Object(
        seq![
            (
                "operations"@,
                JsonModel::List(
                    seq![
                        operation_document(
                            "ocel.load"@,
                            "Load an OCEL file into a native process_mining::OCEL handle."@,
                            "{path, format}"@,
                            "native OCEL handle"@,
                        ),
                        operation_document(
                            "ocel.query.table"@,
                            "Return one native OCEL top-level collection as an Arrow IPC stream."@,
                            "{handle, table}"@,
                            "Arrow IPC stream bytes"@,
                        ),
                    ],
                ),
            ),
        ],
    )
}

/// The text of a nested value, or an error that says what could not be written.
pub fn json_string(outcome: Result<String, String>) -> (r: Result<String, String>)
    ensures
        text_outcome(r) == labelled(text_outcome(outcome), nested_label()),
{
    match outcome {
        Ok(text) => Ok(text),
        Err(message) => Err(
            prefixed("Could not serialize native OCEL nested value: ", message.as_str()),
        ),
    }
}

/// The bytes of a document, given how it was written, or an error that says what could not be
/// written.
pub fn json_bytes(document: Document, outcome: Result<String, String>) -> (r: Result<
    Vec<u8>,
    String,
>)
    ensures
        byte_outcome(r) == labelled(encoded(text_outcome(outcome)), document_label(document)),
{
    let label = match document {
        Document::Metadata => "Could not serialize native OCEL metadata: ",
        Document::Catalog => "Could not serialize native operation catalog: ",
        Document::Rows => "Could not serialize native OCEL table rows: ",
    };
    match outcome {
        Ok(text) => Ok(text.as_str().as_bytes_vec()),
        Err(message) => Err(prefixed(label, message.as_str())),
    }
}

fn text_field(name: &str, text: &str) -> (r: (String, serde_json::Value))
    ensures
        r.0@ == name@,
        json_of(r.1) == JsonModel::Text(text@),
{
    (name.to_string(), value_text(text))
}

pub(crate) fn field(name: &str, value: serde_json::Value) -> (r: (String, serde_json::Value))
    ensures
        r.0@ == name@,
        r.1 == value,
{
    (name.to_string(), value)
}

fn text_pair_value(
    first: &str,
    first_text: &str,
    second: &str,
    second_text: &str,
) -> (r: serde_json::Value)
    requires
        first@ != second@,
    ensures
        json_of(r) == text_pair(first@, first_text@, second@, second_text@),
{
    let fields = vec![text_field(first, first_text), text_field(second, second_text)];
    let ghost held = fields@.map_values(
        |field: (String, serde_json::Value)| (field.0@, json_of(field.1)),
    );
    assert(held == seq![
        (first@, JsonModel::Text(first_text@)),
        (second@, JsonModel::Text(second_text@)),
    ]);
    value_object(fields)
}

/// The JSON text of attribute definitions.
pub fn attributes_json(attributes: &Vec<AttributeDefinition>) -> (r: Result<String, String>)
    ensures
        r is Ok,
        r->Ok_0@ == json_text(attributes_document(attributes.deep_view())),
{
    let mut items: Vec<serde_json::Value> = Vec::new();
    let mut i: usize = 0;
    proof {
        reveal_strlit("name");
        reveal_strlit("value_type");
    }
    while i < attributes.len()
        invariant
            i <= attributes@.len(),
            items@.len() == i,
            "name"@.len() != "value_type"@.len(),
            forall|j: int|
                0 <= j < i ==> json_of(#[trigger] items@[j]) == attribute_document(
                    attributes.deep_view()[j],
                ),
        decreases attributes@.len() - i,
    {
        items.push(
            text_pair_value(
                "name",
                attributes[i].name.as_str(),
                "value_type",
                attributes[i].value_type.as_str(),
            ),
        );
        i += 1;
    }
    assert(items@.map_values(|item: serde_json::Value| json_of(item))
        == attributes.deep_view().map_values(|a: AttributeDefinitionModel| attribute_document(a)));
    write_json(&value_list(items))
}

fn columns_value(columns: &Vec<ColumnDefinition>) -> (r: serde_json::Value)
    ensures
        json_of(r) == JsonModel::List(
            columns.deep_view().map_values(|c: ColumnModel| column_document(c)),
        ),
{
    let mut items: Vec<serde_json::Value> = Vec::new();
    let mut i: usize = 0;
    proof {
        reveal_strlit("name");
        reveal_strlit("type");
        assert("name"@[0] != "type"@[0]);
    }
    while i < columns.len()
        invariant
            i <= columns@.len(),
            items@.len() == i,
            "name"@ != "type"@,
            forall|j: int|
                0 <= j < i ==> json_of(#[trigger] items@[j]) == column_document(
                    columns.deep_view()[j],
                ),
        decreases columns@.len() - i,
    {
        items.push(
            text_pair_value(
                "name",
                columns[i].name.as_str(),
                "type",
                columns[i].logical_type.as_str(),
            ),
        );
        i += 1;
    }
    assert(items@.map_values(|item: serde_json::Value| json_of(item))
        == columns.deep_view().map_values(|c: ColumnModel| column_document(c)));
    value_list(items)
}

fn table_value(table: &TableDefinition) -> (r: serde_json::Value)
    ensures
        json_of(r) == table_document(table.deep_view()),
{
    let fields = vec![
        text_field("name", table.name.as_str()),
        text_field("kind", table.kind.as_str()),
        field("row_count", value_number(table.row_count as u64)),
        field("columns", columns_value(&table.columns)),
    ];
    proof {
        reveal_strlit("name");
        reveal_strlit("kind");
        reveal_strlit("row_count");
        reveal_strlit("columns");
        assert("name"@[0] != "kind"@[0]);
        assert(fields@[0].0@ == "name"@ && "name"@.len() == 4);
        assert(fields@[1].0@ == "kind"@ && "kind"@.len() == 4);
        assert(fields@[2].0@ == "row_count"@ && "row_count"@.len() == 9);
        assert(fields@[3].0@ == "columns"@ && "columns"@.len() == 7);
        let held = fields@.map_values(
            |field: (String, serde_json::Value)| (field.0@, json_of(field.1)),
        );
        assert(held == table_document(table.deep_view())->Object_0);
    }
    value_object(fields)
}

/// The JSON document that describes a loaded log: its backend, the time that loading took and its
/// tables.
pub fn spec_json(native: &NativeOcel) -> (r: Result<Vec<u8>, String>)
    ensures
        r is Ok,
        r->Ok_0@ == encode_utf8(json_text(spec_document(native.deep_view()))),
{
    let tables = &native.metadata.tables;
    let mut items: Vec<serde_json::Value> = Vec::new();
    let mut i: usize = 0;
    while i < tables.len()
        invariant
            i <= tables@.len(),
            items@.len() == i,
            forall|j: int|
                0 <= j < i ==> json_of(#[trigger] items@[j]) == table_document(
                    tables.deep_view()[j],
                ),
        decreases tables@.len() - i,
    {
        items.push(table_value(&tables[i]));
        i += 1;
    }
    assert(items@.map_values(|item: serde_json::Value| json_of(item))
        == tables.deep_view().map_values(|t: TableModel| table_document(t)));
    let fields = vec![
        text_field("backend", "Rust process_mining 0.3.19 JNI"),
        field("load_nanos", value_number(native.load_nanos)),
        field("tables", value_list(items)),
    ];
    proof {
        reveal_strlit("backend");
        reveal_strlit("load_nanos");
        reveal_strlit("tables");
        assert(fields@[0].0@ == "backend"@ && "backend"@.len() == 7);
        assert(fields@[1].0@ == "load_nanos"@ && "load_nanos"@.len() == 10);
        assert(fields@[2].0@ == "tables"@ && "tables"@.len() == 6);
        let held = fields@.map_values(
            |field: (String, serde_json::Value)| (field.0@, json_of(field.1)),
        );
        assert(held == spec_document(native.deep_view())->Object_0);
    }
    json_bytes(Document::Metadata, write_json(&value_object(fields)))
}

fn operation_value(name: &str, description: &str, input: &str, output: &str) -> (r:
    serde_json::Value)
    ensures
        json_of(r) == operation_document(name@, description@, input@, output@),
{
    let fields = vec![
        text_field("name", name),
        text_field("description", description),
        text_field("input", input),
        text_field("output", output),
    ];
    proof {
        reveal_strlit("name");
        reveal_strlit("description");
        reveal_strlit("input");
        reveal_strlit("output");
        assert(fields@[0].0@ == "name"@ && "name"@.len() == 4);
        assert(fields@[1].0@ == "description"@ && "description"@.len() == 11);
        assert(fields@[2].0@ == "input"@ && "input"@.len() == 5);
        assert(fields@[3].0@ == "output"@ && "output"@.len() == 6);
        let held = fields@.map_values(
            |field: (String, serde_json::Value)| (field.0@, json_of(field.1)),
        );
        assert(held == operation_document(name@, description@, input@, output@)->Object_0);
    }
    value_object(fields)
}

/// The JSON document that lists the operations of the library.
pub fn operation_catalog_json() -> (r: Result<Vec<u8>, String>)
    ensures
        r is Ok,
        r->Ok_0@ == encode_utf8(json_text(catalog_document())),
{
    let items = vec![
        operation_value(
            "ocel.load",
            "Load an OCEL file into a native process_mining::OCEL handle.",
            "{path, format}",
            "native OCEL handle",
        ),
        operation_value(
            "ocel.query.table",
            "Return one native OCEL top-level collection as an Arrow IPC stream.",
            "{handle, table}",
            "Arrow IPC stream bytes",
        ),
    ];
    let ghost listed = items@.map_values(|item: serde_json::Value| json_of(item));
    let fields = vec![field("operations", value_list(items))];
    proof {
        let document = catalog_document()->Object_0;
        let held = fields@.map_values(
            |field: (String, serde_json::Value)| (field.0@, json_of(field.1)),
        );
        assert(listed == document[0].1->List_0);
        assert(held == document);
    }
    json_bytes(Document::Catalog, write_json(&value_object(fields)))
}

} // verus!

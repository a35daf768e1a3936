//! What a loaded log offers: its type definitions and the tables that can be queried.
use vstd::prelude::*;

use crate::definitions::{
    event_type_definitions, event_types_of, object_type_definitions, object_types_of,
};
use crate::names::{assign_name, assigned, assigned_names_are_distinct, NameSet};
use crate::ocel::{
    AttributeDefinition, AttributeDefinitionModel, Ocel, OcelModel, TypeDefinition, TypeModel,
};
use crate::text::{
    ascii_lowercase, contains_text, has_part, lower_text, lower_text_idempotent, part_at,
};

verus! {

/// The table of event types.
pub const TABLE_EVENT_TYPES: &'static str = "event_types";

/// The table of object types.
pub const TABLE_OBJECT_TYPES: &'static str = "object_types";

/// The table of events.
pub const TABLE_EVENTS: &'static str = "events";

/// The table of objects.
pub const TABLE_OBJECTS: &'static str = "objects";

/// The kind of the tables.
pub const KIND_COLLECTION: &'static str = "native OCEL collection";

/// The column of identifiers.
pub const COL_ID: &'static str = "id";

/// The column of type names.
pub const COL_NAME: &'static str = "name";

/// The column of types.
pub const COL_TYPE: &'static str = "type";

/// The column of times.
pub const COL_TIME: &'static str = "time";

/// The column of attributes, written as JSON.
pub const COL_ATTRIBUTES: &'static str = "attributes";

/// The column of relationships, written as JSON.
pub const COL_RELATIONSHIPS: &'static str = "relationships";

/// A column: its name and the logical type of its values.
#[derive(Debug, PartialEq, Eq)]
pub struct ColumnDefinition {
    pub name: String,
    pub logical_type: String,
}

/// What a column definition holds.
pub struct ColumnModel {
    pub name: Seq<char>,
    pub logical_type: Seq<char>,
}

impl DeepView for ColumnDefinition {
    type V = ColumnModel;

    open spec fn deep_view(&self) -> ColumnModel {
        ColumnModel { name: self.name@, logical_type: self.logical_type@ }
    }
}

/// A table: its name, its kind, the number of its rows and its columns.
#[derive(Debug, PartialEq, Eq)]
pub struct TableDefinition {
    pub name: String,
    pub kind: String,
    pub row_count: usize,
    pub columns: Vec<ColumnDefinition>,
}

/// What a table definition holds.
pub struct TableModel {
    pub name: Seq<char>,
    pub kind: Seq<char>,
    pub row_count: int,
    pub columns: Seq<ColumnModel>,
}

impl DeepView for TableDefinition {
    type V = TableModel;

    open spec fn deep_view(&self) -> TableModel {
        TableModel {
            name: self.name@,
            kind: self.kind@,
            row_count: self.row_count as int,
            columns: self.columns.deep_view(),
        }
    }
}

/// The type definitions of a log, the tables of single types and the tables of the log.
#[derive(Debug, PartialEq, Eq)]
pub struct Metadata {
    pub event_types: Vec<TypeDefinition>,
    pub object_types: Vec<TypeDefinition>,
    pub event_table_by_type: Vec<(String, String)>,
    pub object_table_by_type: Vec<(String, String)>,
    pub tables: Vec<TableDefinition>,
}

/// What the metadata hold.
pub struct MetadataModel {
    pub event_types: Seq<TypeModel>,
    pub object_types: Seq<TypeModel>,
    pub event_table_by_type: Seq<(Seq<char>, Seq<char>)>,
    pub object_table_by_type: Seq<(Seq<char>, Seq<char>)>,
    pub tables: Seq<TableModel>,
}

impl DeepView for Metadata {
    type V = MetadataModel;

    open spec fn deep_view(&self) -> MetadataModel {
        MetadataModel {
            event_types: self.event_types.deep_view(),
            object_types: self.object_types.deep_view(),
            event_table_by_type: self.event_table_by_type.deep_view(),
            object_table_by_type: self.object_table_by_type.deep_view(),
            tables: self.tables.deep_view(),
        }
    }
}

/// A loaded log with its metadata and the nanoseconds that loading took.
#[derive(Debug, PartialEq, Eq)]
pub struct NativeOcel {
    pub ocel: Ocel,
    pub metadata: Metadata,
    pub load_nanos: u64,
}

/// What a loaded log holds.
pub struct NativeModel {
    pub ocel: OcelModel,
    pub metadata: MetadataModel,
    pub load_nanos: int,
}

impl DeepView for NativeOcel {
    type V = NativeModel;

    open spec fn deep_view(&self) -> NativeModel {
        NativeModel {
            ocel: self.ocel.deep_view(),
            metadata: self.metadata.deep_view(),
            load_nanos: self.load_nanos as int,
        }
    }
}

impl NativeModel {
    /// The metadata are those of the log.
    pub open spec fn well_formed(self) -> bool {
        self.metadata == metadata_of(self.ocel)
    }
}

/// A column of strings.
pub open spec fn text_column(name: Seq<char>) -> ColumnModel {
    ColumnModel { name, logical_type: "string"@ }
}

/// A table of string columns.
pub open spec fn collection_table(
    name: Seq<char>,
    row_count: int,
    columns: Seq<Seq<char>>,
) -> TableModel {
    TableModel {
        name,
        kind: KIND_COLLECTION@,
        row_count,
        columns: columns.map_values(|column: Seq<char>| text_column(column)),
    }
}

/// The columns of the tables of types.
pub open spec fn type_column_names() -> Seq<Seq<char>> {
    seq![COL_NAME@, COL_ATTRIBUTES@]
}

/// The columns of the table of events.
pub open spec fn event_column_names() -> Seq<Seq<char>> {
    seq![COL_ID@, COL_TYPE@, COL_TIME@, COL_ATTRIBUTES@, COL_RELATIONSHIPS@]
}

/// The columns of the table of objects.
pub open spec fn object_column_names() -> Seq<Seq<char>> {
    seq![COL_ID@, COL_TYPE@, COL_ATTRIBUTES@, COL_RELATIONSHIPS@]
}

/// The metadata of a log: its completed types and its four tables, with as many rows as there are
/// event types, object types, events and objects.
pub open spec fn metadata_of(ocel: OcelModel) -> MetadataModel {
    let event_types = event_types_of(ocel);
    let object_types = object_types_of(ocel);
    MetadataModel {
        event_types,
        object_types,
        event_table_by_type: Seq::empty(),
        object_table_by_type: Seq::empty(),
        tables: seq![
            collection_table(TABLE_EVENT_TYPES@, event_types.len() as int, type_column_names()),
            collection_table(TABLE_OBJECT_TYPES@, object_types.len() as int, type_column_names()),
            collection_table(TABLE_EVENTS@, ocel.events.len() as int, event_column_names()),
            collection_table(TABLE_OBJECTS@, ocel.objects.len() as int, object_column_names()),
        ],
    }
}

/// The logical type that a declared type stands for, by what its name contains in any case.
pub open spec fn logical_text(declared_type: Seq<char>) -> Seq<char> {
    let lowered = lower_text(declared_type);
    if has_part(lowered, "bool"@) {
        "boolean"@
    } else if has_part(lowered, "int"@) || has_part(lowered, "long"@) {
        "integer"@
    } else if has_part(lowered, "float"@) || has_part(lowered, "double"@) || has_part(
        lowered,
        "number"@,
    ) || has_part(lowered, "real"@) {
        "float"@
    } else {
        "string"@
    }
}

/// The columns of attributes: each with its name, made unique, and its logical type.
pub open spec fn attribute_column_models(attributes: Seq<AttributeDefinitionModel>) -> Seq<
    ColumnModel,
> {
    let names = assigned(
        attributes.map_values(|a: AttributeDefinitionModel| a.name),
        Set::empty(),
    );
    Seq::new(
        attributes.len(),
        |i: int| ColumnModel { name: names[i], logical_type: logical_text(attributes[i].value_type) },
    )
}

/// A column of strings with the given name.
pub fn string_column(name: &str) -> (r: ColumnDefinition)
    ensures
        r.deep_view() == text_column(name@),
{
    ColumnDefinition { name: name.to_string(), logical_type: "string".to_string() }
}

/// The logical type (`boolean`, `integer`, `float` or `string`) of a declared type.
pub fn logical_type(declared_type: &str) -> (r: String)
    ensures
        r@ == logical_text(declared_type@),
{
    let lowered = ascii_lowercase(declared_type);
    let text = lowered.as_str();
    if contains_text(text, "bool") {
        "boolean".to_string()
    } else if contains_text(text, "int") || contains_text(text, "long") {
        "integer".to_string()
    } else if contains_text(text, "float") || contains_text(text, "double") || contains_text(
        text,
        "number",
    ) || contains_text(text, "real") {
        "float".to_string()
    } else {
        "string".to_string()
    }
}

/// One column for each attribute, under names that differ.
pub fn attribute_columns(attributes: &Vec<AttributeDefinition>) -> (r: Vec<ColumnDefinition>)
    ensures
        r.deep_view() == attribute_column_models(attributes.deep_view()),
{
    let ghost preferred = attributes.deep_view().map_values(|a: AttributeDefinitionModel| a.name);
    let ghost none = Set::<Seq<char>>::empty();
    let mut used = NameSet::new();
    let mut columns: Vec<ColumnDefinition> = Vec::new();
    let mut i: usize = 0;
    proof {
        assert(preferred.take(0) == Seq::<Seq<char>>::empty());
        assert(none.union(assigned(preferred.take(0), none).to_set()) == none);
    }
    while i < attributes.len()
        invariant
            i <= attributes@.len(),
            columns@.len() == i,
            none == Set::<Seq<char>>::empty(),
            preferred == attributes.deep_view().map_values(|a: AttributeDefinitionModel| a.name),
            assigned(preferred.take(i as int), none).len() == i,
            used@ == none.union(assigned(preferred.take(i as int), none).to_set()),
            forall|j: int|
                0 <= j < i ==> #[trigger] columns@[j].deep_view() == (ColumnModel {
                    name: assigned(preferred.take(i as int), none)[j],
                    logical_type: logical_text(attributes.deep_view()[j].value_type),
                }),
        decreases attributes@.len() - i,
    {
        let ghost before = assigned(preferred.take(i as int), none);
        assert(preferred.take(i + 1).drop_last() == preferred.take(i as int));
        assert(preferred.take(i + 1).last() == attributes@[i as int].name@);
        let name = assign_name(attributes[i].name.as_str(), &mut used);
        assert(before.push(name@) == assigned(preferred.take(i + 1), none));
        assert(none.union(before.to_set()).insert(name@) == none.union(
            before.push(name@).to_set(),
        )) by {
            broadcast use vstd::seq_lib::group_seq_properties;

        }
        columns.push(
            ColumnDefinition { name, logical_type: logical_type(attributes[i].value_type.as_str()) },
        );
        i += 1;
    }
    assert(preferred.take(preferred.len() as int) == preferred);
    columns
}

fn collection(name: &str, row_count: usize, columns: Vec<ColumnDefinition>) -> (r: TableDefinition)
    ensures
        r.deep_view() == (TableModel {
            name: name@,
            kind: KIND_COLLECTION@,
            row_count: row_count as int,
            columns: columns.deep_view(),
        }),
{
    TableDefinition { name: name.to_string(), kind: KIND_COLLECTION.to_string(), row_count, columns }
}

/// The metadata of a log.
pub fn build_metadata(ocel: &Ocel) -> (r: Metadata)
    ensures
        r.deep_view() == metadata_of(ocel.deep_view()),
{
    let event_types = event_type_definitions(ocel);
    let object_types = object_type_definitions(ocel);
    let event_type_count: usize = event_types.len();
    let object_type_count: usize = object_types.len();
    let mut tables: Vec<TableDefinition> = Vec::new();
    tables.push(
        collection(
            TABLE_EVENT_TYPES,
            event_type_count,
            vec![string_column(COL_NAME), string_column(COL_ATTRIBUTES)],
        ),
    );
    tables.push(
        collection(
            TABLE_OBJECT_TYPES,
            object_type_count,
            vec![string_column(COL_NAME), string_column(COL_ATTRIBUTES)],
        ),
    );
    tables.push(
        collection(
            TABLE_EVENTS,
            ocel.events.len(),
            vec![
                string_column(COL_ID),
                string_column(COL_TYPE),
                string_column(COL_TIME),
                string_column(COL_ATTRIBUTES),
                string_column(COL_RELATIONSHIPS),
            ],
        ),
    );
    tables.push(
        collection(
            TABLE_OBJECTS,
            ocel.objects.len(),
            vec![
                string_column(COL_ID),
                string_column(COL_TYPE),
                string_column(COL_ATTRIBUTES),
                string_column(COL_RELATIONSHIPS),
            ],
        ),
    );
    let r = Metadata {
        event_types,
        object_types,
        event_table_by_type: Vec::new(),
        object_table_by_type: Vec::new(),
        tables,
    };
    proof {
        let model = metadata_of(ocel.deep_view());
        assert forall|i: int| 0 <= i < 4 implies r.tables.deep_view()[i] == #[trigger] model.tables[i] by {
            assert(r.tables.deep_view()[i].columns == model.tables[i].columns);
        }
        assert(r.tables.deep_view() == model.tables);
        assert(r.event_table_by_type.deep_view() == model.event_table_by_type);
        assert(r.object_table_by_type.deep_view() == model.object_table_by_type);
    }
    r
}

/// The log with its metadata.
pub fn native_ocel(ocel: Ocel, load_nanos: u64) -> (r: NativeOcel)
    ensures
        r.ocel == ocel,
        r.load_nanos == load_nanos,
        r.deep_view().well_formed(),
{
    let metadata = build_metadata(&ocel);
    NativeOcel { ocel, metadata, load_nanos }
}

/// A declared type has the same logical type in any case.
pub proof fn logical_type_ignores_case(declared_type: Seq<char>)
    ensures
        logical_text(lower_text(declared_type)) == logical_text(declared_type),
{
    lower_text_idempotent(declared_type);
}

/// Logical types stand for themselves.
pub proof fn logical_type_idempotent(declared_type: Seq<char>)
    ensures
        logical_text(logical_text(declared_type)) == logical_text(declared_type),
{
    reveal_strlit("bool");
    reveal_strlit("int");
    reveal_strlit("long");
    reveal_strlit("float");
    reveal_strlit("double");
    reveal_strlit("number");
    reveal_strlit("real");
    reveal_strlit("boolean");
    reveal_strlit("integer");
    reveal_strlit("string");
    assert(lower_text("boolean"@) == "boolean"@);
    assert(lower_text("integer"@) == "integer"@);
    assert(lower_text("float"@) == "float"@);
    assert(lower_text("string"@) == "string"@);
    assert("boolean"@.subrange(0, 4) == "bool"@);
    assert("integer"@.subrange(0, 3) == "int"@);
    assert("float"@.subrange(0, 5) == "float"@);
    assert(part_at("boolean"@, "bool"@, 0));
    assert(part_at("integer"@, "int"@, 0));
    assert(part_at("float"@, "float"@, 0));
    lacks_part("integer"@, "bool"@, 0);
    lacks_part("float"@, "bool"@, 0);
    lacks_part("float"@, "int"@, 0);
    lacks_part("float"@, "long"@, 2);
    lacks_part("string"@, "bool"@, 0);
    lacks_part("string"@, "long"@, 0);
    lacks_part("string"@, "float"@, 0);
    lacks_part("string"@, "double"@, 0);
    lacks_part("string"@, "number"@, 1);
    lacks_part("string"@, "real"@, 1);
    assert forall|i: int| !#[trigger] part_at("string"@, "int"@, i) by {
        if part_at("string"@, "int"@, i) {
            assert("string"@.subrange(i, i + 3)[2] == "string"@[i + 2]);
            assert("string"@.subrange(i, i + 3)[0] == "string"@[i]);
        }
    }
}

/// A text without one of the characters of a part does not hold the part.
proof fn lacks_part(text: Seq<char>, part: Seq<char>, k: int)
    requires
        0 <= k < part.len(),
        forall|i: int| 0 <= i < text.len() ==> #[trigger] text[i] != part[k],
    ensures
        !has_part(text, part),
{
    assert forall|i: int| !#[trigger] part_at(text, part, i) by {
        if part_at(text, part, i) {
            assert(text.subrange(i, i + part.len())[k] == text[i + k]);
        }
    }
}

/// The columns of attributes are as many as the attributes, and their names differ.
pub proof fn attribute_columns_are_distinct(attributes: Seq<AttributeDefinitionModel>)
    ensures
        attribute_column_models(attributes).len() == attributes.len(),
        attribute_column_models(attributes).map_values(|c: ColumnModel| c.name).no_duplicates(),
{
    let preferred = attributes.map_values(|a: AttributeDefinitionModel| a.name);
    assigned_names_are_distinct(preferred, Set::empty());
    assert(attribute_column_models(attributes).map_values(|c: ColumnModel| c.name) == assigned(
        preferred,
        Set::empty(),
    ));
}

} // verus!

//! Tables as rows of optional texts, page by page.
use vstd::prelude::*;
use vstd::utf8::encode_utf8;

use crate::definitions::{find_type, has_type, type_position, type_position_is};
use crate::json::{
    attributes_document, attributes_json, field, json_bytes, json_of, json_string, json_text,
    value_list, value_null, value_object, value_text, write_json, Document, JsonModel,
};
use crate::metadata::{
    NativeModel, NativeOcel, TableDefinition, TableModel, TABLE_EVENTS, TABLE_EVENT_TYPES,
    TABLE_OBJECTS, TABLE_OBJECT_TYPES,
};
use crate::names::{table_names, table_names_are_distinct};
use crate::ocel::{
    event_attributes_json, event_attributes_text, object_attributes_json, object_attributes_text,
    relationships_json, relationships_text, rfc3339, rfc3339_text, AttributeDefinitionModel,
    AttributeValue, Event, EventAttribute, EventAttributeModel, EventModel, Object,
    ObjectAttribute, ObjectAttributeModel, ObjectModel, TypeDefinition, TypeModel, ValueModel,
};
use crate::text::{byte_outcome, decimal, decimal_i64, joined, same_text, text_outcome};

verus! {

/// What a page of rows yields, as characters.
pub open spec fn rows_outcome(r: Result<Vec<Vec<Option<String>>>, String>) -> Result<
    Seq<Seq<Option<Seq<char>>>>,
    Seq<char>,
> {
    match r {
        Ok(rows) => Ok(rows.deep_view()),
        Err(message) => Err(message@),
    }
}

/// The items from a position on, up to a number of them.
pub open spec fn window<T>(items: Seq<T>, offset: int, limit: int) -> Seq<T> {
    let start = if offset < items.len() {
        offset
    } else {
        items.len() as int
    };
    let end = if start + limit < items.len() {
        start + limit
    } else {
        items.len() as int
    };
    items.subrange(start, end)
}

/// A text that could be written fills its cell; one that could not leaves it empty.
pub open spec fn cell(outcome: Result<Seq<char>, Seq<char>>) -> Option<Seq<char>> {
    match outcome {
        Ok(text) => Some(text),
        Err(_) => None,
    }
}

/// The row of a type definition whose attributes were written with the given outcome.
pub open spec fn definition_row(
    definition: TypeModel,
    attributes: Result<Seq<char>, Seq<char>>,
) -> Seq<Option<Seq<char>>> {
    seq![Some(definition.name), cell(attributes)]
}

/// The row of an event with the given time, attributes and relationships.
pub open spec fn event_row(
    event: EventModel,
    time: Seq<char>,
    attributes: Result<Seq<char>, Seq<char>>,
    relationships: Result<Seq<char>, Seq<char>>,
) -> Seq<Option<Seq<char>>> {
    seq![
        Some(event.id),
        Some(event.event_type),
        Some(time),
        cell(attributes),
        cell(relationships),
    ]
}

/// The row of an object with the given attributes and relationships.
pub open spec fn object_row(
    object: ObjectModel,
    attributes: Result<Seq<char>, Seq<char>>,
    relationships: Result<Seq<char>, Seq<char>>,
) -> Seq<Option<Seq<char>>> {
    seq![Some(object.id), Some(object.object_type), cell(attributes), cell(relationships)]
}

/// The rows of type definitions.
pub open spec fn definition_rows(definitions: Seq<TypeModel>) -> Seq<Seq<Option<Seq<char>>>> {
    definitions.map_values(
        |d: TypeModel| definition_row(d, Ok(json_text(attributes_document(d.attributes)))),
    )
}

/// The rows of events.
pub open spec fn event_rows(events: Seq<EventModel>) -> Seq<Seq<Option<Seq<char>>>> {
    events.map_values(
        |e: EventModel|
            event_row(
                e,
                rfc3339_text(e.time),
                Ok(event_attributes_text(e.attributes)),
                Ok(relationships_text(e.relationships)),
            ),
    )
}

/// The rows of objects.
pub open spec fn object_rows(objects: Seq<ObjectModel>) -> Seq<Seq<Option<Seq<char>>>> {
    objects.map_values(
        |o: ObjectModel|
            object_row(
                o,
                Ok(object_attributes_text(o.attributes)),
                Ok(relationships_text(o.relationships)),
            ),
    )
}

/// The rows of the table with the given name, where there is such a table.
pub open spec fn table_rows(native: NativeModel, name: Seq<char>) -> Option<
    Seq<Seq<Option<Seq<char>>>>,
> {
    if name == TABLE_EVENT_TYPES@ {
        Some(definition_rows(native.metadata.event_types))
    } else if name == TABLE_OBJECT_TYPES@ {
        Some(definition_rows(native.metadata.object_types))
    } else if name == TABLE_EVENTS@ {
        Some(event_rows(native.ocel.events))
    } else if name == TABLE_OBJECTS@ {
        Some(object_rows(native.ocel.objects))
    } else {
        None
    }
}

/// The message on a table that no rows are known for.
pub open spec fn not_recognized(name: Seq<char>) -> Seq<char> {
    "Native OCEL table '"@ + name + "' is not recognized."@
}

/// The message on a table that is not listed.
pub open spec fn not_available(name: Seq<char>) -> Seq<char> {
    "Native OCEL table '"@ + name + "' is not available."@
}

/// A page of a table: nothing where nothing is asked for or the page starts behind the last row,
/// else the rows of the window, and an error for a table that is not known.
pub open spec fn page(native: NativeModel, table: TableModel, offset: int, limit: int) -> Result<
    Seq<Seq<Option<Seq<char>>>>,
    Seq<char>,
> {
    if limit == 0 || offset >= table.row_count {
        Ok(Seq::empty())
    } else {
        match table_rows(native, table.name) {
            Some(rows) => Ok(window(rows, offset, limit)),
            None => Err(not_recognized(table.name)),
        }
    }
}

/// The first table with the given name.
pub open spec fn first_table(tables: Seq<TableModel>, name: Seq<char>) -> Option<TableModel>
    decreases tables.len(),
{
    if tables.len() == 0 {
        None
    } else if tables[0].name == name {
        Some(tables[0])
    } else {
        first_table(tables.drop_first(), name)
    }
}

/// A cell as a document.
pub open spec fn cell_document(cell: Option<Seq<char>>) -> JsonModel {
    match cell {
        Some(text) => JsonModel::Text(text),
        None => JsonModel::Null,
    }
}

/// A row as a document.
pub open spec fn row_document(row: Seq<Option<Seq<char>>>) -> JsonModel {
    JsonModel::List(row.map_values(|c: Option<Seq<char>>| cell_document(c)))
}

/// Rows as a document.
pub open spec fn rows_document(rows: Seq<Seq<Option<Seq<char>>>>) -> JsonModel {
    JsonModel::Object(
        seq![
            (
                "rows"@,
                JsonModel::List(rows.map_values(|row: Seq<Option<Seq<char>>>| row_document(row))),
            ),
        ],
    )
}

/// The answer to a request for a page of a listed table.
pub open spec fn page_json(native: NativeModel, name: Seq<char>, offset: int, limit: int) -> Result<
    Seq<u8>,
    Seq<char>,
> {
    match first_table(native.metadata.tables, name) {
        None => Err(not_available(name)),
        Some(table) => match page(native, table, offset, limit) {
            Err(message) => Err(message),
            Ok(rows) => Ok(encode_utf8(json_text(rows_document(rows)))),
        },
    }
}

/// An attribute value as a text.
pub open spec fn value_string(value: ValueModel) -> Seq<char> {
    match value {
        ValueModel::Time(instant) => rfc3339_text(instant),
        ValueModel::Integer(i) => decimal(i),
        ValueModel::Float(text) => text,
        ValueModel::Boolean(b) => if b {
            "true"@
        } else {
            "false"@
        },
        ValueModel::Text(text) => text,
        ValueModel::Null => Seq::empty(),
    }
}

/// The value of the first attribute with the given name, as a text.
pub open spec fn first_value(attributes: Seq<EventAttributeModel>, name: Seq<char>) -> Option<
    Seq<char>,
>
    decreases attributes.len(),
{
    if attributes.len() == 0 {
        None
    } else if attributes[0].name == name {
        Some(value_string(attributes[0].value))
    } else {
        first_value(attributes.drop_first(), name)
    }
}

/// The row of an event with the given time in the table of its type: its id, its time and one cell
/// for each attribute of the type.
pub open spec fn typed_event_row(
    event: EventModel,
    time: Seq<char>,
    definition: TypeModel,
) -> Seq<Option<Seq<char>>> {
    seq![Some(event.id), Some(time)] + definition.attributes.map_values(
        |a: AttributeDefinitionModel| first_value(event.attributes, a.name),
    )
}

/// The row of a change of an object's attribute at the given time in the table of its type: the id
/// of the object, the time and the name of the change, and one cell for each attribute of the type,
/// of which only the changed one is filled.
pub open spec fn change_row(
    object: ObjectModel,
    change: ObjectAttributeModel,
    time: Seq<char>,
    definition: TypeModel,
) -> Seq<Option<Seq<char>>> {
    seq![Some(object.id), Some(time), Some(change.name)]
        + definition.attributes.map_values(
        |a: AttributeDefinitionModel|
            if a.name == change.name {
                Some(value_string(change.value))
            } else {
                None
            },
    )
}

/// The rows of the events that have the type.
pub open spec fn typed_event_rows(
    events: Seq<EventModel>,
    used_type: Seq<char>,
    definition: TypeModel,
) -> Seq<Seq<Option<Seq<char>>>>
    decreases events.len(),
{
    if events.len() == 0 {
        Seq::empty()
    } else {
        let before = typed_event_rows(events.drop_last(), used_type, definition);
        if events.last().event_type == used_type {
            before.push(
                typed_event_row(events.last(), rfc3339_text(events.last().time), definition),
            )
        } else {
            before
        }
    }
}

/// The rows of the changes of an object.
pub open spec fn change_rows(object: ObjectModel, definition: TypeModel) -> Seq<
    Seq<Option<Seq<char>>>,
> {
    object.attributes.map_values(
        |change: ObjectAttributeModel|
            change_row(object, change, rfc3339_text(change.time), definition),
    )
}

/// The rows of the changes of the objects that have the type.
pub open spec fn typed_object_rows(
    objects: Seq<ObjectModel>,
    used_type: Seq<char>,
    definition: TypeModel,
) -> Seq<Seq<Option<Seq<char>>>>
    decreases objects.len(),
{
    if objects.len() == 0 {
        Seq::empty()
    } else {
        let before = typed_object_rows(objects.drop_last(), used_type, definition);
        if objects.last().object_type == used_type {
            before + change_rows(objects.last(), definition)
        } else {
            before
        }
    }
}

/// The first part of the first pair whose second part is the given table.
pub open spec fn type_of_table(
    pairs: Seq<(Seq<char>, Seq<char>)>,
    table: Seq<char>,
) -> Option<Seq<char>>
    decreases pairs.len(),
{
    if pairs.len() == 0 {
        None
    } else if pairs[0].1 == table {
        Some(pairs[0].0)
    } else {
        type_of_table(pairs.drop_first(), table)
    }
}

/// A page of the table of a single type.
pub open spec fn typed_page(
    native: NativeModel,
    table: Seq<char>,
    offset: int,
    limit: int,
) -> Result<Seq<Seq<Option<Seq<char>>>>, Seq<char>> {
    let metadata = native.metadata;
    match type_of_table(metadata.event_table_by_type, table) {
        Some(name) => if has_type(metadata.event_types, name) {
            let definition = metadata.event_types[type_position(metadata.event_types, name)];
            Ok(window(typed_event_rows(native.ocel.events, name, definition), offset, limit))
        } else {
            Err("Missing event type definition for '"@ + name + "'."@)
        },
        None => match type_of_table(metadata.object_table_by_type, table) {
            Some(name) => if has_type(metadata.object_types, name) {
                let definition = metadata.object_types[type_position(metadata.object_types, name)];
                Ok(window(typed_object_rows(native.ocel.objects, name, definition), offset, limit))
            } else {
                Err("Missing object type definition for '"@ + name + "'."@)
            },
            None => Err(not_recognized(table)),
        },
    }
}

/// The value as an optional one.
pub fn some(value: String) -> (r: Option<String>)
    ensures
        r == Some(value),
{
    Some(value)
}

/// The rows from an offset on, up to a limit.
pub fn slice_rows(rows: Vec<Vec<Option<String>>>, offset: usize, limit: usize) -> (r: Vec<
    Vec<Option<String>>,
>)
    ensures
        r@ == window(rows@, offset as int, limit as int),
        r.deep_view() == window(rows.deep_view(), offset as int, limit as int),
{
    let mut all = rows;
    if offset >= all.len() {
        return Vec::new();
    }
    let mut r = all.split_off(offset);
    if limit < r.len() {
        r.truncate(limit);
    }
    r
}

/// An attribute value as a text: times in RFC 3339, numbers in decimal, nothing for no value.
pub fn attribute_value_to_string(value: &AttributeValue) -> (r: String)
    ensures
        r@ == value_string(value.deep_view()),
{
    match value {
        AttributeValue::Time(time) => rfc3339(*time),
        AttributeValue::Integer(i) => decimal_i64(*i),
        AttributeValue::Float(number) => number.as_str().to_string(),
        AttributeValue::Boolean(b) => if *b {
            "true".to_string()
        } else {
            "false".to_string()
        },
        AttributeValue::Text(text) => text.clone(),
        AttributeValue::Null => String::new(),
    }
}

fn json_cell(outcome: Result<String, String>) -> (r: Option<String>)
    ensures
        r.deep_view() == cell(text_outcome(outcome)),
{
    json_string(outcome).ok()
}

/// The cells of a type definition, given how its attributes were written.
pub fn definition_cells(
    definition: &TypeDefinition,
    attributes: Result<String, String>,
) -> (r: Vec<Option<String>>)
    ensures
        r.deep_view() == definition_row(definition.deep_view(), text_outcome(attributes)),
{
    vec![some(definition.name.clone()), json_cell(attributes)]
}

/// The cells of an event, given how its time, attributes and relationships were written.
pub fn event_cells(
    event: &Event,
    time: String,
    attributes: Result<String, String>,
    relationships: Result<String, String>,
) -> (r: Vec<Option<String>>)
    ensures
        r.deep_view() == event_row(
            event.deep_view(),
            time@,
            text_outcome(attributes),
            text_outcome(relationships),
        ),
{
    vec![
        some(event.id.clone()),
        some(event.event_type.clone()),
        some(time),
        json_cell(attributes),
        json_cell(relationships),
    ]
}

/// The cells of an object, given how its attributes and relationships were written.
pub fn object_cells(
    object: &Object,
    attributes: Result<String, String>,
    relationships: Result<String, String>,
) -> (r: Vec<Option<String>>)
    ensures
        r.deep_view() == object_row(
            object.deep_view(),
            text_outcome(attributes),
            text_outcome(relationships),
        ),
{
    vec![
        some(object.id.clone()),
        some(object.object_type.clone()),
        json_cell(attributes),
        json_cell(relationships),
    ]
}

/// The number of leading items that a page can touch.
fn page_end(total: usize, offset: usize, limit: usize) -> (r: usize)
    ensures
        r == if offset + limit < total {
            offset + limit
        } else {
            total as int
        },
{
    if offset < total && limit < total - offset {
        offset + limit
    } else {
        total
    }
}

proof fn window_of_start<T>(items: Seq<T>, end: int, offset: int, limit: int)
    requires
        0 <= offset,
        0 <= limit,
        end == if offset + limit < items.len() {
            offset + limit
        } else {
            items.len() as int
        },
    ensures
        window(items.take(end), offset, limit) == window(items, offset, limit),
{
}

fn definition_page(definitions: &Vec<TypeDefinition>, offset: usize, limit: usize) -> (r: Vec<
    Vec<Option<String>>,
>)
    ensures
        r.deep_view() == window(
            definition_rows(definitions.deep_view()),
            offset as int,
            limit as int,
        ),
{
    let end = page_end(definitions.len(), offset, limit);
    let ghost all = definition_rows(definitions.deep_view());
    let mut rows: Vec<Vec<Option<String>>> = Vec::new();
    let mut i: usize = 0;
    while i < end
        invariant
            i <= end <= definitions@.len(),
            all == definition_rows(definitions.deep_view()),
            rows.deep_view() == all.take(i as int),
        decreases end - i,
    {
        let ghost before = rows.deep_view();
        let row = definition_cells(&definitions[i], attributes_json(&definitions[i].attributes));
        assert(row.deep_view() == all[i as int]);
        rows.push(row);
        assert(rows.deep_view() == before.push(all[i as int]));
        i += 1;
    }
    proof {
        window_of_start(all, end as int, offset as int, limit as int);
    }
    slice_rows(rows, offset, limit)
}

fn event_page(events: &Vec<Event>, offset: usize, limit: usize) -> (r: Vec<Vec<Option<String>>>)
    ensures
        r.deep_view() == window(event_rows(events.deep_view()), offset as int, limit as int),
{
    let end = page_end(events.len(), offset, limit);
    let ghost all = event_rows(events.deep_view());
    let mut rows: Vec<Vec<Option<String>>> = Vec::new();
    let mut i: usize = 0;
    while i < end
        invariant
            i <= end <= events@.len(),
            all == event_rows(events.deep_view()),
            rows.deep_view() == all.take(i as int),
        decreases end - i,
    {
        let ghost before = rows.deep_view();
        let event = &events[i];
        let row = event_cells(
            event,
            rfc3339(event.time),
            event_attributes_json(&event.attributes),
            relationships_json(&event.relationships),
        );
        assert(row.deep_view() == all[i as int]);
        rows.push(row);
        assert(rows.deep_view() == before.push(all[i as int]));
        i += 1;
    }
    proof {
        window_of_start(all, end as int, offset as int, limit as int);
    }
    slice_rows(rows, offset, limit)
}

fn object_page(objects: &Vec<Object>, offset: usize, limit: usize) -> (r: Vec<Vec<Option<String>>>)
    ensures
        r.deep_view() == window(object_rows(objects.deep_view()), offset as int, limit as int),
{
    let end = page_end(objects.len(), offset, limit);
    let ghost all = object_rows(objects.deep_view());
    let mut rows: Vec<Vec<Option<String>>> = Vec::new();
    let mut i: usize = 0;
    while i < end
        invariant
            i <= end <= objects@.len(),
            all == object_rows(objects.deep_view()),
            rows.deep_view() == all.take(i as int),
        decreases end - i,
    {
        let ghost before = rows.deep_view();
        let object = &objects[i];
        let row = object_cells(
            object,
            object_attributes_json(&object.attributes),
            relationships_json(&object.relationships),
        );
        assert(row.deep_view() == all[i as int]);
        rows.push(row);
        assert(rows.deep_view() == before.push(all[i as int]));
        i += 1;
    }
    proof {
        window_of_start(all, end as int, offset as int, limit as int);
    }
    slice_rows(rows, offset, limit)
}

/// A page of one of the tables of a log.
pub fn rows_for_table(
    native: &NativeOcel,
    table: &TableDefinition,
    offset: usize,
    limit: usize,
) -> (r: Result<Vec<Vec<Option<String>>>, String>)
    ensures
        rows_outcome(r) == page(
            native.deep_view(),
            table.deep_view(),
            offset as int,
            limit as int,
        ),
{
    if limit == 0 || offset >= table.row_count {
        let none: Vec<Vec<Option<String>>> = Vec::new();
        assert(none.deep_view() == Seq::<Seq<Option<Seq<char>>>>::empty());
        return Ok(none);
    }
    let name = table.name.as_str();
    if same_text(name, TABLE_EVENT_TYPES) {
        Ok(definition_page(&native.metadata.event_types, offset, limit))
    } else if same_text(name, TABLE_OBJECT_TYPES) {
        Ok(definition_page(&native.metadata.object_types, offset, limit))
    } else if same_text(name, TABLE_EVENTS) {
        Ok(event_page(&native.ocel.events, offset, limit))
    } else if same_text(name, TABLE_OBJECTS) {
        Ok(object_page(&native.ocel.objects, offset, limit))
    } else {
        Err(joined("Native OCEL table '", name, "' is not recognized."))
    }
}

fn find_value(attributes: &Vec<EventAttribute>, name: &str) -> (r: Option<String>)
    ensures
        r.deep_view() == first_value(attributes.deep_view(), name@),
{
    let ghost models = attributes.deep_view();
    let mut i: usize = 0;
    assert(models.skip(0) == models);
    while i < attributes.len()
        invariant
            i <= attributes@.len(),
            models == attributes.deep_view(),
            first_value(models, name@) == first_value(models.skip(i as int), name@),
        decreases attributes@.len() - i,
    {
        assert(models.skip(i as int)[0] == attributes@[i as int].deep_view());
        assert(models.skip(i as int).drop_first() == models.skip(i + 1));
        if same_text(attributes[i].name.as_str(), name) {
            return Some(attribute_value_to_string(&attributes[i].value));
        }
        i += 1;
    }
    None
}

/// The cells of an event in the table of its type, given how its time was written.
pub fn typed_event_cells(event: &Event, time: String, definition: &TypeDefinition) -> (r: Vec<
    Option<String>,
>)
    ensures
        r.deep_view() == typed_event_row(event.deep_view(), time@, definition.deep_view()),
{
    let ghost whole = typed_event_row(event.deep_view(), time@, definition.deep_view());
    let ghost text = time@;
    let mut row = vec![some(event.id.clone()), some(time)];
    let mut i: usize = 0;
    assert(row.deep_view() == whole.take(2));
    while i < definition.attributes.len()
        invariant
            i <= definition.attributes@.len(),
            whole == typed_event_row(event.deep_view(), text, definition.deep_view()),
            row.deep_view() == whole.take(2 + i),
        decreases definition.attributes@.len() - i,
    {
        let ghost before = row.deep_view();
        let value = find_value(&event.attributes, definition.attributes[i].name.as_str());
        assert(value.deep_view() == whole[2 + i]);
        row.push(value);
        assert(row.deep_view() == before.push(whole[2 + i]));
        i += 1;
    }
    row
}

/// The cells of a change of an object's attribute in the table of its type, given how its time was
/// written.
pub fn change_cells(
    object: &Object,
    change: &ObjectAttribute,
    time: String,
    definition: &TypeDefinition,
) -> (r: Vec<Option<String>>)
    ensures
        r.deep_view() == change_row(
            object.deep_view(),
            change.deep_view(),
            time@,
            definition.deep_view(),
        ),
{
    let ghost text = time@;
    let ghost whole = change_row(
        object.deep_view(),
        change.deep_view(),
        text,
        definition.deep_view(),
    );
    let mut row = vec![
        some(object.id.clone()),
        some(time),
        some(change.name.clone()),
    ];
    let mut i: usize = 0;
    assert(row.deep_view() == whole.take(3));
    while i < definition.attributes.len()
        invariant
            i <= definition.attributes@.len(),
            whole == change_row(
                object.deep_view(),
                change.deep_view(),
                text,
                definition.deep_view(),
            ),
            row.deep_view() == whole.take(3 + i),
        decreases definition.attributes@.len() - i,
    {
        let ghost before = row.deep_view();
        let value = if same_text(definition.attributes[i].name.as_str(), change.name.as_str()) {
            some(attribute_value_to_string(&change.value))
        } else {
            None
        };
        assert(value.deep_view() == whole[3 + i]);
        row.push(value);
        assert(row.deep_view() == before.push(whole[3 + i]));
        i += 1;
    }
    row
}

fn find_type_of_table(pairs: &Vec<(String, String)>, table: &str) -> (r: Option<String>)
    ensures
        r.deep_view() == type_of_table(pairs.deep_view(), table@),
{
    let ghost models = pairs.deep_view();
    let mut i: usize = 0;
    assert(models.skip(0) == models);
    while i < pairs.len()
        invariant
            i <= pairs@.len(),
            models == pairs.deep_view(),
            type_of_table(models, table@) == type_of_table(models.skip(i as int), table@),
        decreases pairs@.len() - i,
    {
        assert(models.skip(i as int)[0] == pairs@[i as int].deep_view());
        assert(models.skip(i as int).drop_first() == models.skip(i + 1));
        if same_text(pairs[i].1.as_str(), table) {
            return Some(pairs[i].0.clone());
        }
        i += 1;
    }
    None
}

fn all_typed_event_rows(events: &Vec<Event>, used_type: &str, definition: &TypeDefinition) -> (r: Vec<
    Vec<Option<String>>,
>)
    ensures
        r.deep_view() == typed_event_rows(
            events.deep_view(),
            used_type@,
            definition.deep_view(),
        ),
{
    let ghost models = events.deep_view();
    let mut rows: Vec<Vec<Option<String>>> = Vec::new();
    let mut i: usize = 0;
    while i < events.len()
        invariant
            i <= events@.len(),
            models == events.deep_view(),
            rows.deep_view() == typed_event_rows(
                models.take(i as int),
                used_type@,
                definition.deep_view(),
            ),
        decreases events@.len() - i,
    {
        assert(models.take(i + 1).drop_last() == models.take(i as int));
        assert(models.take(i + 1).last() == events@[i as int].deep_view());
        if same_text(events[i].event_type.as_str(), used_type) {
            let ghost before = rows.deep_view();
            let row = typed_event_cells(&events[i], rfc3339(events[i].time), definition);
            let ghost added = row.deep_view();
            rows.push(row);
            assert(rows.deep_view() == before.push(added));
        }
        i += 1;
    }
    assert(models.take(models.len() as int) == models);
    rows
}

fn all_typed_object_rows(
    objects: &Vec<Object>,
    used_type: &str,
    definition: &TypeDefinition,
) -> (r: Vec<Vec<Option<String>>>)
    ensures
        r.deep_view() == typed_object_rows(
            objects.deep_view(),
            used_type@,
            definition.deep_view(),
        ),
{
    let ghost models = objects.deep_view();
    let mut rows: Vec<Vec<Option<String>>> = Vec::new();
    let mut i: usize = 0;
    while i < objects.len()
        invariant
            i <= objects@.len(),
            models == objects.deep_view(),
            rows.deep_view() == typed_object_rows(
                models.take(i as int),
                used_type@,
                definition.deep_view(),
            ),
        decreases objects@.len() - i,
    {
        assert(models.take(i + 1).drop_last() == models.take(i as int));
        assert(models.take(i + 1).last() == objects@[i as int].deep_view());
        if same_text(objects[i].object_type.as_str(), used_type) {
            push_change_rows(&mut rows, &objects[i], definition);
        }
        i += 1;
    }
    assert(models.take(models.len() as int) == models);
    rows
}

fn push_change_rows(rows: &mut Vec<Vec<Option<String>>>, object: &Object, definition: &TypeDefinition)
    ensures
        final(rows).deep_view() == old(rows).deep_view() + change_rows(
            object.deep_view(),
            definition.deep_view(),
        ),
{
    let ghost start = rows.deep_view();
    let ghost changes = change_rows(object.deep_view(), definition.deep_view());
    let mut i: usize = 0;
    assert(start + changes.take(0) == start);
    while i < object.attributes.len()
        invariant
            i <= object.attributes@.len(),
            changes == change_rows(object.deep_view(), definition.deep_view()),
            rows.deep_view() == start + changes.take(i as int),
        decreases object.attributes@.len() - i,
    {
        let ghost before = rows.deep_view();
        let change = &object.attributes[i];
        let row = change_cells(object, change, rfc3339(change.time), definition);
        assert(row.deep_view() == changes[i as int]);
        rows.push(row);
        assert(rows.deep_view() == before.push(changes[i as int]));
        i += 1;
    }
    assert(changes.take(changes.len() as int) == changes);
}

/// A page of the table of a single event type or object type.
pub fn rows_for_type_table(
    native: &NativeOcel,
    table: &TableDefinition,
    offset: usize,
    limit: usize,
) -> (r: Result<Vec<Vec<Option<String>>>, String>)
    ensures
        rows_outcome(r) == typed_page(
            native.deep_view(),
            table.name@,
            offset as int,
            limit as int,
        ),
{
    let metadata = &native.metadata;
    let name = table.name.as_str();
    if let Some(used_type) = find_type_of_table(&metadata.event_table_by_type, name) {
        return match find_type(&metadata.event_types, used_type.as_str()) {
            Some(i) => {
                proof {
                    type_position_is(metadata.event_types.deep_view(), used_type@, i as int);
                }
                let rows = all_typed_event_rows(
                    &native.ocel.events,
                    used_type.as_str(),
                    &metadata.event_types[i],
                );
                Ok(slice_rows(rows, offset, limit))
            },
            None => Err(joined("Missing event type definition for '", used_type.as_str(), "'.")),
        };
    }
    if let Some(used_type) = find_type_of_table(&metadata.object_table_by_type, name) {
        return match find_type(&metadata.object_types, used_type.as_str()) {
            Some(i) => {
                proof {
                    type_position_is(metadata.object_types.deep_view(), used_type@, i as int);
                }
                let rows = all_typed_object_rows(
                    &native.ocel.objects,
                    used_type.as_str(),
                    &metadata.object_types[i],
                );
                Ok(slice_rows(rows, offset, limit))
            },
            None => Err(joined("Missing object type definition for '", used_type.as_str(), "'.")),
        };
    }
    Err(joined("Native OCEL table '", name, "' is not recognized."))
}

fn find_table<'a>(tables: &'a Vec<TableDefinition>, name: &str) -> (r: Option<&'a TableDefinition>)
    ensures
        match r {
            Some(table) => first_table(tables.deep_view(), name@) == Some(table.deep_view()),
            None => first_table(tables.deep_view(), name@) is None,
        },
{
    let ghost models = tables.deep_view();
    let mut i: usize = 0;
    assert(models.skip(0) == models);
    while i < tables.len()
        invariant
            i <= tables@.len(),
            models == tables.deep_view(),
            first_table(models, name@) == first_table(models.skip(i as int), name@),
        decreases tables@.len() - i,
    {
        assert(models.skip(i as int)[0] == tables@[i as int].deep_view());
        assert(models.skip(i as int).drop_first() == models.skip(i + 1));
        if same_text(tables[i].name.as_str(), name) {
            return Some(&tables[i]);
        }
        i += 1;
    }
    None
}

fn cell_value(cell: &Option<String>) -> (r: serde_json::Value)
    ensures
        json_of(r) == cell_document(cell.deep_view()),
{
    match cell {
        Some(text) => value_text(text.as_str()),
        None => value_null(),
    }
}

fn row_value(row: &Vec<Option<String>>) -> (r: serde_json::Value)
    ensures
        json_of(r) == row_document(row.deep_view()),
{
    let mut items: Vec<serde_json::Value> = Vec::new();
    let mut i: usize = 0;
    while i < row.len()
        invariant
            i <= row@.len(),
            items@.len() == i,
            forall|j: int|
                0 <= j < i ==> json_of(#[trigger] items@[j]) == cell_document(row.deep_view()[j]),
        decreases row@.len() - i,
    {
        items.push(cell_value(&row[i]));
        i += 1;
    }
    assert(items@.map_values(|item: serde_json::Value| json_of(item)) == row.deep_view().map_values(
        |c: Option<Seq<char>>| cell_document(c),
    ));
    value_list(items)
}

/// The JSON text of rows.
pub fn rows_json(rows: &Vec<Vec<Option<String>>>) -> (r: Result<String, String>)
    ensures
        r is Ok,
        r->Ok_0@ == json_text(rows_document(rows.deep_view())),
{
    let mut items: Vec<serde_json::Value> = Vec::new();
    let mut i: usize = 0;
    while i < rows.len()
        invariant
            i <= rows@.len(),
            items@.len() == i,
            forall|j: int|
                0 <= j < i ==> json_of(#[trigger] items@[j]) == row_document(rows.deep_view()[j]),
        decreases rows@.len() - i,
    {
        items.push(row_value(&rows[i]));
        i += 1;
    }
    assert(items@.map_values(|item: serde_json::Value| json_of(item))
        == rows.deep_view().map_values(|row: Seq<Option<Seq<char>>>| row_document(row)));
    let fields = vec![field("rows", value_list(items))];
    proof {
        let held = fields@.map_values(
            |field: (String, serde_json::Value)| (field.0@, json_of(field.1)),
        );
        assert(held == rows_document(rows.deep_view())->Object_0);
    }
    write_json(&value_object(fields))
}

/// The JSON document of a page of a listed table.
pub fn table_rows_json(native: &NativeOcel, name: &str, offset: usize, limit: usize) -> (r: Result<
    Vec<u8>,
    String,
>)
    ensures
        byte_outcome(r) == page_json(native.deep_view(), name@, offset as int, limit as int),
{
    match find_table(&native.metadata.tables, name) {
        None => Err(joined("Native OCEL table '", name, "' is not available.")),
        Some(table) => match rows_for_table(native, table, offset, limit) {
            Err(message) => Err(message),
            Ok(rows) => json_bytes(Document::Rows, rows_json(&rows)),
        },
    }
}

/// Pages that follow each other, put together, are the page that spans them.
pub proof fn pages_join<T>(items: Seq<T>, offset: int, first: int, second: int)
    requires
        offset >= 0,
        first >= 0,
        second >= 0,
    ensures
        window(items, offset, first) + window(items, offset + first, second) == window(
            items,
            offset,
            first + second,
        ),
{
}

/// A page from the start that is large enough is the whole.
pub proof fn large_page_is_whole<T>(items: Seq<T>, limit: int)
    requires
        limit >= items.len(),
    ensures
        window(items, 0, limit) == items,
{
}

pub(crate) proof fn table_names_differ()
    ensures
        TABLE_EVENT_TYPES@ != TABLE_OBJECT_TYPES@,
        TABLE_EVENT_TYPES@ != TABLE_EVENTS@,
        TABLE_EVENT_TYPES@ != TABLE_OBJECTS@,
        TABLE_OBJECT_TYPES@ != TABLE_EVENTS@,
        TABLE_OBJECT_TYPES@ != TABLE_OBJECTS@,
        TABLE_EVENTS@ != TABLE_OBJECTS@,
{
    reveal_strlit("event_types");
    reveal_strlit("object_types");
    reveal_strlit("events");
    reveal_strlit("objects");
    assert(TABLE_EVENT_TYPES@.len() == 11);
    assert(TABLE_OBJECT_TYPES@.len() == 12);
    assert(TABLE_EVENTS@.len() == 6);
    assert(TABLE_OBJECTS@.len() == 7);
}

/// Each listed table of a log is found by its name, has as many rows as its definition says, and
/// each of its rows has one cell for each of its columns.
pub proof fn listed_tables_have_their_rows(native: NativeModel, i: int)
    requires
        native.well_formed(),
        0 <= i < native.metadata.tables.len(),
    ensures
        ({
            let table = native.metadata.tables[i];
            &&& first_table(native.metadata.tables, table.name) == Some(table)
            &&& table_rows(native, table.name) is Some
            &&& table_rows(native, table.name)->0.len() == table.row_count
            &&& forall|r: int|
                0 <= r < table.row_count ==> (#[trigger] table_rows(native, table.name)->0[r]).len()
                    == table.columns.len()
        }),
{
    table_names_differ();
    let tables = native.metadata.tables;
    assert(tables.len() == 4);
    assert(tables[0].name == TABLE_EVENT_TYPES@);
    assert(tables[1].name == TABLE_OBJECT_TYPES@);
    assert(tables[2].name == TABLE_EVENTS@);
    assert(tables[3].name == TABLE_OBJECTS@);
    let rest1 = tables.drop_first();
    let rest2 = rest1.drop_first();
    let rest3 = rest2.drop_first();
    assert(rest1[0] == tables[1]);
    assert(rest2[0] == tables[2]);
    assert(rest3[0] == tables[3]);
    reveal_with_fuel(first_table, 5);
}

/// Looked up by its name, the table of a type leads back to that type.
pub proof fn tables_lead_back_to_their_types(
    prefix: Seq<char>,
    definitions: Seq<TypeModel>,
    used: Set<Seq<char>>,
    i: int,
)
    requires
        used.finite(),
        0 <= i < definitions.len(),
    ensures
        ({
            let pairs = table_names(prefix, definitions, used);
            type_of_table(pairs, pairs[i].1) == Some(definitions[i].name)
        }),
{
    let pairs = table_names(prefix, definitions, used);
    table_names_are_distinct(prefix, definitions, used);
    type_of_table_at(pairs, pairs[i].1, i);
}

proof fn type_of_table_at(pairs: Seq<(Seq<char>, Seq<char>)>, table: Seq<char>, i: int)
    requires
        0 <= i < pairs.len(),
        pairs[i].1 == table,
        forall|j: int| 0 <= j < i ==> (#[trigger] pairs[j]).1 != table,
    ensures
        type_of_table(pairs, table) == Some(pairs[i].0),
    decreases i,
{
    if i > 0 {
        let rest = pairs.drop_first();
        assert(pairs[0].1 != table);
        assert forall|j: int| 0 <= j < i - 1 implies (#[trigger] rest[j]).1 != table by {
            assert(rest[j] == pairs[j + 1]);
        }
        type_of_table_at(rest, table, i - 1);
    }
}

/// In the table of an event type every row has the id, the time and one cell for each attribute of
/// the type.
pub proof fn typed_event_rows_are_level(
    events: Seq<EventModel>,
    used_type: Seq<char>,
    definition: TypeModel,
)
    ensures
        forall|r: int|
            0 <= r < typed_event_rows(events, used_type, definition).len()
                ==> (#[trigger] typed_event_rows(events, used_type, definition)[r]).len() == 2
                + definition.attributes.len(),
    decreases events.len(),
{
    if events.len() > 0 {
        let before = typed_event_rows(events.drop_last(), used_type, definition);
        let rows = typed_event_rows(events, used_type, definition);
        typed_event_rows_are_level(events.drop_last(), used_type, definition);
        assert forall|r: int| 0 <= r < rows.len() implies (#[trigger] rows[r]).len() == 2
            + definition.attributes.len() by {
            if r < before.len() {
                assert(rows[r] == before[r]);
            }
        }
    }
}

/// In the table of an object type every row has the id, the time, the name of the change and one
/// cell for each attribute of the type.
pub proof fn typed_object_rows_are_level(
    objects: Seq<ObjectModel>,
    used_type: Seq<char>,
    definition: TypeModel,
)
    ensures
        forall|r: int|
            0 <= r < typed_object_rows(objects, used_type, definition).len()
                ==> (#[trigger] typed_object_rows(objects, used_type, definition)[r]).len() == 3
                + definition.attributes.len(),
    decreases objects.len(),
{
    if objects.len() > 0 {
        let before = typed_object_rows(objects.drop_last(), used_type, definition);
        let rows = typed_object_rows(objects, used_type, definition);
        typed_object_rows_are_level(objects.drop_last(), used_type, definition);
        assert forall|r: int| 0 <= r < rows.len() implies (#[trigger] rows[r]).len() == 3
            + definition.attributes.len() by {
            if r < before.len() {
                assert(rows[r] == before[r]);
            }
        }
    }
}

/// A loaded log has no tables of single types.
pub proof fn loaded_logs_have_no_type_tables(
    native: NativeModel,
    table: Seq<char>,
    offset: int,
    limit: int,
)
    requires
        native.well_formed(),
    ensures
        typed_page(native, table, offset, limit) == Err::<Seq<Seq<Option<Seq<char>>>>, Seq<char>>(
            not_recognized(table),
        ),
{
}

/// A page of a listed table never fails: it is the window of its rows, and empty where nothing is
/// asked for or it starts behind the last row.
pub proof fn pages_of_listed_tables(native: NativeModel, i: int, offset: int, limit: int)
    requires
        native.well_formed(),
        0 <= i < native.metadata.tables.len(),
        offset >= 0,
        limit >= 0,
    ensures
        ({
            let table = native.metadata.tables[i];
            page(native, table, offset, limit) == Ok::<Seq<Seq<Option<Seq<char>>>>, Seq<char>>(
                window(table_rows(native, table.name)->0, offset, limit),
            )
        }),
{
    listed_tables_have_their_rows(native, i);
    let table = native.metadata.tables[i];
    let rows = table_rows(native, table.name)->0;
    if limit == 0 || offset >= table.row_count {
        assert(window(rows, offset, limit) == Seq::<Seq<Option<Seq<char>>>>::empty());
    }
}

/// Exactly the listed tables of a log have pages, whatever their offset and limit.
pub proof fn exactly_listed_tables_have_pages(
    native: NativeModel,
    name: Seq<char>,
    offset: int,
    limit: int,
)
    requires
        native.well_formed(),
        offset >= 0,
        limit >= 0,
    ensures
        page_json(native, name, offset, limit) is Ok <==> exists|i: int|
            0 <= i < native.metadata.tables.len() && #[trigger] native.metadata.tables[i].name == name,
{
    let tables = native.metadata.tables;
    if exists|i: int| 0 <= i < tables.len() && #[trigger] tables[i].name == name {
        let i = choose|i: int| 0 <= i < tables.len() && #[trigger] tables[i].name == name;
        listed_tables_have_their_rows(native, i);
        pages_of_listed_tables(native, i, offset, limit);
    } else {
        unlisted_table_is_not_found(tables, name);
    }
}

pub(crate) proof fn unlisted_table_is_not_found(tables: Seq<TableModel>, name: Seq<char>)
    requires
        forall|i: int| 0 <= i < tables.len() ==> #[trigger] tables[i].name != name,
    ensures
        first_table(tables, name) is None,
    decreases tables.len(),
{
    if tables.len() > 0 {
        let rest = tables.drop_first();
        assert(tables[0].name != name);
        assert forall|i: int| 0 <= i < rest.len() implies #[trigger] rest[i].name != name by {
            assert(rest[i] == tables[i + 1]);
        }
        unlisted_table_is_not_found(rest, name);
    }
}

} // verus!

//! Tables as Arrow IPC streams.
use arrow_array::{ArrayRef, RecordBatch, StringArray};
use arrow_ipc::writer::StreamWriter;
use arrow_schema::{DataType, Field, Schema};
use std::sync::Arc;
use vstd::prelude::*;
use vstd::utf8::encode_utf8;

use crate::json::{
    attributes_document, attributes_json, json_string, json_text, labelled, nested_label,
};
use crate::metadata::{
    ColumnModel, event_column_names, object_column_names, type_column_names, NativeModel, NativeOcel,
    COL_ATTRIBUTES, COL_ID, COL_NAME, COL_RELATIONSHIPS, COL_TIME, COL_TYPE, TABLE_EVENTS,
    TABLE_EVENT_TYPES, TABLE_OBJECTS, TABLE_OBJECT_TYPES,
};
use crate::ocel::{
    event_attributes_json, event_attributes_text, object_attributes_json, object_attributes_text,
    relationships_json, relationships_text, rfc3339, rfc3339_text, Event, EventModel, Object,
    ObjectModel, TypeDefinition, TypeModel,
};
use crate::rows::{listed_tables_have_their_rows, table_names_differ, table_rows};
use crate::text::{byte_outcome, decimal, joined, prefixed, same_text, text_outcome};

verus! {

/// `arrow_array::RecordBatch`: columns of equal length under the names of its schema.
#[verifier::external_body]
pub struct Batch {
    inner: RecordBatch,
}

/// `arrow_ipc::writer::StreamWriter`: an Arrow IPC stream in the making.
#[verifier::external_type_specification]
#[verifier::external_body]
#[verifier::reject_recursive_types(W)]
pub struct ExStreamWriter<W>(StreamWriter<W>);

/// The names of the columns of a batch.
pub uninterp spec fn batch_names(batch: Batch) -> Seq<Seq<char>>;

/// The columns of a batch.
pub uninterp spec fn batch_columns(batch: Batch) -> Seq<Seq<Seq<char>>>;

/// The text of the error with which `RecordBatch::try_new` refuses columns of text.
pub open spec fn batch_refusal(names: Seq<Seq<char>>, columns: Seq<Seq<Seq<char>>>) -> Seq<char> {
    if names.len() != columns.len() {
        "Invalid argument error: number of columns("@ + decimal(columns.len() as int)
            + ") must match number of fields("@ + decimal(names.len() as int) + ") in schema"@
    } else if columns.len() == 0 {
        "Invalid argument error: must either specify a row count or at least one column"@
    } else {
        "Invalid argument error: all columns in a record batch must have the same length"@
    }
}

/// The names of the columns in the schema of a stream.
pub uninterp spec fn stream_names(stream: StreamWriter<Vec<u8>>) -> Seq<Seq<char>>;

/// The batches written to a stream, each as its columns.
pub uninterp spec fn stream_batches(stream: StreamWriter<Vec<u8>>) -> Seq<Seq<Seq<Seq<char>>>>;

/// Whether a stream is finished.
pub uninterp spec fn stream_finished(stream: StreamWriter<Vec<u8>>) -> bool;

/// The bytes that a `StreamWriter` has put into a byte vector, once it is finished, for text columns
/// with the given names and the given batches. The bytes are those of a little-endian machine.
pub uninterp spec fn ipc_bytes(
    names: Seq<Seq<char>>,
    batches: Seq<Seq<Seq<Seq<char>>>>,
) -> Seq<u8>;

/// There are columns, each has a name, and they have equal lengths.
pub open spec fn well_shaped(names: Seq<Seq<char>>, columns: Seq<Seq<Seq<char>>>) -> bool {
    &&& columns.len() > 0
    &&& names.len() == columns.len()
    &&& forall|i: int| 0 <= i < columns.len() ==> (#[trigger] columns[i]).len() == columns[0].len()
}

/// The number of bytes in the texts of a column.
pub open spec fn column_bytes(column: Seq<Seq<char>>) -> nat
    decreases column.len(),
{
    if column.len() == 0 {
        0
    } else {
        column_bytes(column.drop_last()) + encode_utf8(column.last()).len()
    }
}

/// The bytes of each column can be addressed by 32-bit offsets.
pub open spec fn columns_fit(columns: Seq<Seq<Seq<char>>>) -> bool {
    forall|i: int|
        0 <= i < columns.len() ==> column_bytes(#[trigger] columns[i]) <= i32::MAX
}

/// The names make a schema whose metadata stay within the two gigabytes that a message of a stream
/// may take: each name takes its bytes, and a text column takes less than 256 bytes beside it.
pub open spec fn names_fit(names: Seq<Seq<char>>) -> bool {
    column_bytes(names) + 256 * names.len() <= i32::MAX
}

/// `RecordBatch::try_new` on `StringArray::from` the columns and a schema of `Field::new` for each
/// name, of type `Utf8` and not nullable. It accepts exactly columns that are well shaped, holds
/// them and their names, and else says which of its three conditions does not hold.
/// `StringArray::from` panics where the bytes of a column exceed 32-bit offsets.
#[verifier::external_body]
pub(crate) fn record_batch(names: Vec<&str>, columns: Vec<Vec<String>>) -> (r: Result<Batch, String>)
    requires
        columns_fit(columns.deep_view()),
    ensures
        match r {
            Ok(batch) => {
                &&& well_shaped(names.deep_view(), columns.deep_view())
                &&& batch_names(batch) == names.deep_view()
                &&& batch_columns(batch) == columns.deep_view()
            },
            Err(message) => {
                &&& !well_shaped(names.deep_view(), columns.deep_view())
                &&& message@ == batch_refusal(names.deep_view(), columns.deep_view())
            },
        },
{
    let fields: Vec<Field> = names.iter().map(|name| Field::new(*name, DataType::Utf8, false)).collect();
    let arrays: Vec<ArrayRef> = columns.into_iter().map(|c| Arc::new(StringArray::from(c)) as ArrayRef).collect();
    match RecordBatch::try_new(Arc::new(Schema::new(fields)), arrays) {
        Ok(inner) => Ok(Batch { inner }),
        Err(err) => Err(err.to_string()),
    }
}

/// `StreamWriter::try_new` into a byte vector with the schema of the batch. It does not fail: it
/// writes the schema, and memory takes every byte.
#[verifier::external_body]
pub(crate) fn open_stream(batch: &Batch) -> (r: Result<StreamWriter<Vec<u8>>, String>)
    requires
        names_fit(batch_names(*batch)),
    ensures
        r is Ok,
        stream_names(r->Ok_0) == batch_names(*batch),
        stream_batches(r->Ok_0) == Seq::<Seq<Seq<Seq<char>>>>::empty(),
        !stream_finished(r->Ok_0),
{
    StreamWriter::try_new(Vec::new(), &batch.inner.schema()).map_err(|err| err.to_string())
}

/// `StreamWriter::write` appends the batch to a stream of its schema that is not finished. It does
/// not fail: text columns have no dictionaries, their buffers are padded, and memory takes every
/// byte.
#[verifier::external_body]
pub(crate) fn write_batch(stream: &mut StreamWriter<Vec<u8>>, batch: &Batch) -> (r: Result<
    (),
    String,
>)
    requires
        names_fit(batch_names(*batch)),
        stream_names(*old(stream)) == batch_names(*batch),
        !stream_finished(*old(stream)),
    ensures
        r is Ok,
        stream_names(*final(stream)) == batch_names(*batch),
        stream_batches(*final(stream)) == stream_batches(*old(stream)).push(batch_columns(*batch)),
        !stream_finished(*final(stream)),
{
    stream.write(&batch.inner).map_err(|err| err.to_string())
}

/// `StreamWriter::finish` finishes a stream that is not finished and leaves its batches. It does not
/// fail: memory takes every byte.
#[verifier::external_body]
pub(crate) fn finish_stream(stream: &mut StreamWriter<Vec<u8>>) -> (r: Result<(), String>)
    requires
        !stream_finished(*old(stream)),
    ensures
        r is Ok,
        stream_names(*final(stream)) == stream_names(*old(stream)),
        stream_batches(*final(stream)) == stream_batches(*old(stream)),
        stream_finished(*final(stream)),
{
    stream.finish().map_err(|err| err.to_string())
}

/// `StreamWriter::into_inner` hands out the byte vector of a finished stream as it is.
#[verifier::external_body]
pub(crate) fn stream_bytes(stream: StreamWriter<Vec<u8>>) -> (r: Vec<u8>)
    requires
        stream_finished(stream),
    ensures
        r@ == ipc_bytes(stream_names(stream), stream_batches(stream)),
{
    stream.into_inner().unwrap()
}

/// A table by its columns.
#[derive(Debug, PartialEq, Eq)]
pub struct ArrowTable {
    pub names: Vec<&'static str>,
    pub columns: Vec<Vec<String>>,
}

/// What a table by its columns holds.
pub struct FrameModel {
    pub names: Seq<Seq<char>>,
    pub columns: Seq<Seq<Seq<char>>>,
}

impl DeepView for ArrowTable {
    type V = FrameModel;

    open spec fn deep_view(&self) -> FrameModel {
        FrameModel { names: self.names.deep_view(), columns: self.columns.deep_view() }
    }
}

/// What fallible text computations yield, as characters.
pub open spec fn text_outcomes(outcomes: Seq<Result<String, String>>) -> Seq<
    Result<Seq<char>, Seq<char>>,
> {
    outcomes.map_values(|o: Result<String, String>| text_outcome(o))
}

/// All texts, or the first error.
pub open spec fn collected(outcomes: Seq<Result<Seq<char>, Seq<char>>>) -> Result<
    Seq<Seq<char>>,
    Seq<char>,
>
    decreases outcomes.len(),
{
    if outcomes.len() == 0 {
        Ok(Seq::empty())
    } else {
        match collected(outcomes.drop_last()) {
            Err(message) => Err(message),
            Ok(texts) => match outcomes.last() {
                Err(message) => Err(message),
                Ok(text) => Ok(texts.push(text)),
            },
        }
    }
}

/// The column of nested values written with the given outcomes: all texts, or the first error.
pub open spec fn nested_texts(outcomes: Seq<Result<Seq<char>, Seq<char>>>) -> Result<
    Seq<Seq<char>>,
    Seq<char>,
> {
    collected(
        outcomes.map_values(|o: Result<Seq<char>, Seq<char>>| labelled(o, nested_label())),
    )
}

/// Outcomes of writing that are all texts.
pub open spec fn written(texts: Seq<Seq<char>>) -> Seq<Result<Seq<char>, Seq<char>>> {
    texts.map_values(|text: Seq<char>| Ok(text))
}

/// The texts of the attributes of each definition.
pub open spec fn definition_attribute_texts(definitions: Seq<TypeModel>) -> Seq<Seq<char>> {
    definitions.map_values(|d: TypeModel| json_text(attributes_document(d.attributes)))
}

/// The texts of the attributes of each event.
pub open spec fn event_attribute_texts(events: Seq<EventModel>) -> Seq<Seq<char>> {
    events.map_values(|e: EventModel| event_attributes_text(e.attributes))
}

/// The texts of the relationships of each event.
pub open spec fn event_relationship_texts(events: Seq<EventModel>) -> Seq<Seq<char>> {
    events.map_values(|e: EventModel| relationships_text(e.relationships))
}

/// The texts of the attributes of each object.
pub open spec fn object_attribute_texts(objects: Seq<ObjectModel>) -> Seq<Seq<char>> {
    objects.map_values(|o: ObjectModel| object_attributes_text(o.attributes))
}

/// The texts of the relationships of each object.
pub open spec fn object_relationship_texts(objects: Seq<ObjectModel>) -> Seq<Seq<char>> {
    objects.map_values(|o: ObjectModel| relationships_text(o.relationships))
}

/// The table of type definitions.
pub open spec fn definition_frame(definitions: Seq<TypeModel>) -> FrameModel {
    FrameModel {
        names: type_column_names(),
        columns: seq![
            definitions.map_values(|d: TypeModel| d.name),
            definition_attribute_texts(definitions),
        ],
    }
}

/// The table of events.
pub open spec fn event_frame(events: Seq<EventModel>) -> FrameModel {
    FrameModel {
        names: event_column_names(),
        columns: seq![
            events.map_values(|e: EventModel| e.id),
            events.map_values(|e: EventModel| e.event_type),
            events.map_values(|e: EventModel| rfc3339_text(e.time)),
            event_attribute_texts(events),
            event_relationship_texts(events),
        ],
    }
}

/// The table of objects.
pub open spec fn object_frame(objects: Seq<ObjectModel>) -> FrameModel {
    FrameModel {
        names: object_column_names(),
        columns: seq![
            objects.map_values(|o: ObjectModel| o.id),
            objects.map_values(|o: ObjectModel| o.object_type),
            object_attribute_texts(objects),
            object_relationship_texts(objects),
        ],
    }
}

/// The message on a table that cannot be queried.
pub open spec fn no_collection(name: Seq<char>) -> Seq<char> {
    "Native OCEL table '"@ + name
        + "' is not available. Available native collections: event_types, object_types, events, objects."@
}

/// The table with the given name by its columns, or why there is none.
pub open spec fn table_frame(native: NativeModel, name: Seq<char>) -> Result<
    FrameModel,
    Seq<char>,
> {
    if name == TABLE_EVENT_TYPES@ {
        Ok(definition_frame(native.metadata.event_types))
    } else if name == TABLE_OBJECT_TYPES@ {
        Ok(definition_frame(native.metadata.object_types))
    } else if name == TABLE_EVENTS@ {
        Ok(event_frame(native.ocel.events))
    } else if name == TABLE_OBJECTS@ {
        Ok(object_frame(native.ocel.objects))
    } else {
        Err(no_collection(name))
    }
}

/// A table that can be built can be put into Arrow columns.
pub open spec fn frame_fits(frame: Result<FrameModel, Seq<char>>) -> bool {
    match frame {
        Ok(table) => columns_fit(table.columns),
        Err(_) => true,
    }
}

/// The stream of one batch with the given columns, or why there is none.
pub open spec fn arrow_stream(names: Seq<Seq<char>>, columns: Seq<Seq<Seq<char>>>) -> Result<
    Seq<u8>,
    Seq<char>,
> {
    if well_shaped(names, columns) {
        Ok(ipc_bytes(names, seq![columns]))
    } else {
        Err(stream_failure_text(StreamStep::Batch, batch_refusal(names, columns)))
    }
}

/// The steps of writing a stream.
#[derive(Clone, Copy, Debug, PartialEq, Eq)]
pub enum StreamStep {
    Batch,
    Open,
    Write,
    Finish,
}

/// The message on a step that failed.
pub open spec fn stream_failure_text(step: StreamStep, detail: Seq<char>) -> Seq<char> {
    match step {
        StreamStep::Batch => "Could not create native OCEL Arrow record batch: "@ + detail,
        StreamStep::Open => "Could not create native OCEL Arrow IPC writer: "@ + detail,
        StreamStep::Write => "Could not write native OCEL Arrow IPC batch: "@ + detail,
        StreamStep::Finish => "Could not finish native OCEL Arrow IPC stream: "@ + detail,
    }
}

/// The bytes of the stream of a table.
pub open spec fn frame_bytes(frame: FrameModel) -> Seq<u8> {
    ipc_bytes(frame.names, seq![frame.columns])
}

/// The stream of a table, or why there is none.
pub open spec fn frame_stream(frame: Result<FrameModel, Seq<char>>) -> Result<
    Seq<u8>,
    Seq<char>,
> {
    match frame {
        Err(message) => Err(message),
        Ok(table) => Ok(frame_bytes(table)),
    }
}

/// Whether the bytes of a column can be addressed by 32-bit offsets.
pub fn column_fits(column: &Vec<String>) -> (r: bool)
    ensures
        r == (column_bytes(column.deep_view()) <= i32::MAX),
{
    let ghost texts = column.deep_view();
    let mut total: usize = 0;
    let mut i: usize = 0;
    while i < column.len()
        invariant
            i <= column@.len(),
            texts == column.deep_view(),
            total == column_bytes(texts.take(i as int)),
            total <= i32::MAX,
        decreases column@.len() - i,
    {
        let size: usize = column[i].as_str().as_bytes().len();
        proof {
            assert(texts.take(i + 1).drop_last() == texts.take(i as int));
            assert(texts.take(i + 1).last() == column@[i as int]@);
            column_bytes_grow(texts, i + 1);
        }
        if size > 2_147_483_647 - total {
            return false;
        }
        total += size;
        i += 1;
    }
    assert(texts.take(texts.len() as int) == texts);
    true
}

proof fn column_bytes_grow(column: Seq<Seq<char>>, i: int)
    requires
        0 <= i <= column.len(),
    ensures
        column_bytes(column.take(i)) <= column_bytes(column),
    decreases column.len(),
{
    if i < column.len() {
        assert(column.drop_last().take(i) == column.take(i));
        column_bytes_grow(column.drop_last(), i);
    } else {
        assert(column.take(i) == column);
    }
}

/// Whether the bytes of every column can be addressed by 32-bit offsets.
pub fn all_columns_fit(columns: &Vec<Vec<String>>) -> (r: bool)
    ensures
        r == columns_fit(columns.deep_view()),
{
    let mut i: usize = 0;
    while i < columns.len()
        invariant
            i <= columns@.len(),
            forall|j: int|
                0 <= j < i ==> column_bytes(#[trigger] columns.deep_view()[j]) <= i32::MAX,
        decreases columns@.len() - i,
    {
        assert(columns.deep_view()[i as int] == columns@[i as int].deep_view());
        if !column_fits(&columns[i]) {
            return false;
        }
        i += 1;
    }
    true
}

/// The message on a step of writing a stream that failed.
pub fn stream_failure(step: StreamStep, detail: &str) -> (r: String)
    ensures
        r@ == stream_failure_text(step, detail@),
{
    match step {
        StreamStep::Batch => prefixed("Could not create native OCEL Arrow record batch: ", detail),
        StreamStep::Open => prefixed("Could not create native OCEL Arrow IPC writer: ", detail),
        StreamStep::Write => prefixed("Could not write native OCEL Arrow IPC batch: ", detail),
        StreamStep::Finish => prefixed("Could not finish native OCEL Arrow IPC stream: ", detail),
    }
}

/// The Arrow IPC stream of a single batch with the given columns of text. It succeeds exactly where
/// there are columns, each has a name, and they have equal lengths.
pub fn write_arrow_ipc(column_names: Vec<&str>, columns: Vec<Vec<String>>) -> (r: Result<
    Vec<u8>,
    String,
>)
    requires
        names_fit(column_names.deep_view()),
        columns_fit(columns.deep_view()),
    ensures
        r is Ok <==> well_shaped(column_names.deep_view(), columns.deep_view()),
        byte_outcome(r) == arrow_stream(column_names.deep_view(), columns.deep_view()),
{
    let ghost texts = columns.deep_view();
    let batch = match record_batch(column_names, columns) {
        Ok(batch) => batch,
        Err(message) => {
            return Err(stream_failure(StreamStep::Batch, message.as_str()));
        },
    };
    let mut stream = match open_stream(&batch) {
        Ok(stream) => stream,
        Err(message) => {
            return Err(stream_failure(StreamStep::Open, message.as_str()));
        },
    };
    assert(Seq::<Seq<Seq<Seq<char>>>>::empty().push(texts) == seq![texts]);
    if let Err(message) = write_batch(&mut stream, &batch) {
        return Err(stream_failure(StreamStep::Write, message.as_str()));
    }
    if let Err(message) = finish_stream(&mut stream) {
        return Err(stream_failure(StreamStep::Finish, message.as_str()));
    }
    Ok(stream_bytes(stream))
}

/// The texts of nested values, given how they were written, or the first error.
pub fn nested_column(outcomes: Vec<Result<String, String>>) -> (r: Result<Vec<String>, String>)
    ensures
        match r {
            Ok(texts) => Ok(texts.deep_view()),
            Err(message) => Err(message@),
        } == nested_texts(text_outcomes(outcomes@)),
{
    let ghost all = text_outcomes(outcomes@).map_values(
        |o: Result<Seq<char>, Seq<char>>| labelled(o, nested_label()),
    );
    let mut texts: Vec<String> = Vec::new();
    assert(texts.deep_view() == Seq::<Seq<char>>::empty());
    for outcome in it: outcomes
        invariant
            it.seq() == outcomes@,
            all == text_outcomes(outcomes@).map_values(
                |o: Result<Seq<char>, Seq<char>>| labelled(o, nested_label()),
            ),
            collected(all.take(it.index())) == Ok::<Seq<Seq<char>>, Seq<char>>(texts.deep_view()),
    {
        let ghost before = texts.deep_view();
        let ghost k = it.index();
        proof {
            assert(all.take(k + 1).drop_last() == all.take(k));
            assert(all.take(k + 1).last() == labelled(text_outcome(outcome), nested_label()));
        }
        match json_string(outcome) {
            Ok(text) => {
                texts.push(text);
                assert(texts.deep_view() == before.push(text@));
            },
            Err(message) => {
                proof {
                    collected_keeps_error(all, k + 1);
                }
                return Err(message);
            },
        }
    }
    assert(all.take(all.len() as int) == all);
    Ok(texts)
}

proof fn collected_keeps_error(outcomes: Seq<Result<Seq<char>, Seq<char>>>, i: int)
    requires
        0 <= i <= outcomes.len(),
        collected(outcomes.take(i)) is Err,
    ensures
        collected(outcomes) == collected(outcomes.take(i)),
    decreases outcomes.len(),
{
    if i < outcomes.len() {
        assert(outcomes.drop_last().take(i) == outcomes.take(i));
        collected_keeps_error(outcomes.drop_last(), i);
    } else {
        assert(outcomes.take(i) == outcomes);
    }
}

/// Texts all of which could be written make a column.
proof fn written_texts(texts: Seq<Seq<char>>)
    ensures
        nested_texts(written(texts)) == Ok::<Seq<Seq<char>>, Seq<char>>(texts),
    decreases texts.len(),
{
    let all = written(texts).map_values(
        |o: Result<Seq<char>, Seq<char>>| labelled(o, nested_label()),
    );
    if texts.len() > 0 {
        let start = texts.drop_last();
        written_texts(start);
        assert(all.drop_last() == written(start).map_values(
            |o: Result<Seq<char>, Seq<char>>| labelled(o, nested_label()),
        ));
        assert(start.push(texts.last()) == texts);
    } else {
        assert(texts == Seq::<Seq<char>>::empty());
    }
}

proof fn column_names_fit()
    ensures
        names_fit(type_column_names()),
        names_fit(event_column_names()),
        names_fit(object_column_names()),
{
    reveal_strlit("id");
    reveal_strlit("name");
    reveal_strlit("type");
    reveal_strlit("time");
    reveal_strlit("attributes");
    reveal_strlit("relationships");
    reveal_with_fuel(name_chars, 6);
    short_names_fit(type_column_names());
    short_names_fit(event_column_names());
    short_names_fit(object_column_names());
}

fn push_text(column: &mut Vec<String>, text: String)
    ensures
        final(column).deep_view() == old(column).deep_view().push(text@),
{
    column.push(text);
}

fn push_outcome(outcomes: &mut Vec<Result<String, String>>, outcome: Result<String, String>)
    ensures
        text_outcomes(final(outcomes)@) == text_outcomes(old(outcomes)@).push(
            text_outcome(outcome),
        ),
{
    outcomes.push(outcome);
}

/// The table of type definitions by its columns.
pub fn table_of_definitions(definitions: &Vec<TypeDefinition>) -> (r: Result<ArrowTable, String>)
    ensures
        r is Ok,
        r->Ok_0.deep_view() == definition_frame(definitions.deep_view()),
{
    let ghost models = definitions.deep_view();
    let ghost all_names = models.map_values(|d: TypeModel| d.name);
    let ghost all_outcomes = written(definition_attribute_texts(models));
    let mut names: Vec<String> = Vec::new();
    let mut outcomes: Vec<Result<String, String>> = Vec::new();
    let mut i: usize = 0;
    while i < definitions.len()
        invariant
            i <= definitions@.len(),
            models == definitions.deep_view(),
            all_names == models.map_values(|d: TypeModel| d.name),
            all_outcomes == written(definition_attribute_texts(models)),
            names.deep_view() == all_names.take(i as int),
            text_outcomes(outcomes@) == all_outcomes.take(i as int),
        decreases definitions@.len() - i,
    {
        let definition = &definitions[i];
        push_text(&mut names, definition.name.clone());
        push_outcome(&mut outcomes, attributes_json(&definition.attributes));
        i += 1;
    }
    assert(all_names.take(all_names.len() as int) == all_names);
    assert(all_outcomes.take(all_outcomes.len() as int) == all_outcomes);
    proof {
        written_texts(definition_attribute_texts(models));
    }
    let attributes = match nested_column(outcomes) {
        Ok(attributes) => attributes,
        Err(message) => {
            return Err(message);
        },
    };
    let table = ArrowTable {
        names: vec![COL_NAME, COL_ATTRIBUTES],
        columns: vec![names, attributes],
    };
    proof {
        let frame = definition_frame(models);
        assert(table.names.deep_view() == frame.names);
        assert(table.columns.deep_view() == frame.columns);
    }
    Ok(table)
}

/// The table of events by its columns.
pub fn table_of_events(events: &Vec<Event>) -> (r: Result<ArrowTable, String>)
    ensures
        r is Ok,
        r->Ok_0.deep_view() == event_frame(events.deep_view()),
{
    let ghost models = events.deep_view();
    let ghost all_ids = models.map_values(|e: EventModel| e.id);
    let ghost all_types = models.map_values(|e: EventModel| e.event_type);
    let ghost all_times = models.map_values(|e: EventModel| rfc3339_text(e.time));
    let ghost all_attributes = written(event_attribute_texts(models));
    let ghost all_relationships = written(event_relationship_texts(models));
    let mut ids: Vec<String> = Vec::new();
    let mut types: Vec<String> = Vec::new();
    let mut times: Vec<String> = Vec::new();
    let mut attribute_outcomes: Vec<Result<String, String>> = Vec::new();
    let mut relationship_outcomes: Vec<Result<String, String>> = Vec::new();
    let mut i: usize = 0;
    while i < events.len()
        invariant
            i <= events@.len(),
            models == events.deep_view(),
            all_ids == models.map_values(|e: EventModel| e.id),
            all_types == models.map_values(|e: EventModel| e.event_type),
            all_times == models.map_values(|e: EventModel| rfc3339_text(e.time)),
            all_attributes == written(event_attribute_texts(models)),
            all_relationships == written(event_relationship_texts(models)),
            ids.deep_view() == all_ids.take(i as int),
            types.deep_view() == all_types.take(i as int),
            times.deep_view() == all_times.take(i as int),
            text_outcomes(attribute_outcomes@) == all_attributes.take(i as int),
            text_outcomes(relationship_outcomes@) == all_relationships.take(i as int),
        decreases events@.len() - i,
    {
        let event = &events[i];
        push_text(&mut ids, event.id.clone());
        push_text(&mut types, event.event_type.clone());
        push_text(&mut times, rfc3339(event.time));
        push_outcome(&mut attribute_outcomes, event_attributes_json(&event.attributes));
        push_outcome(&mut relationship_outcomes, relationships_json(&event.relationships));
        i += 1;
    }
    assert(all_ids.take(all_ids.len() as int) == all_ids);
    assert(all_types.take(all_types.len() as int) == all_types);
    assert(all_times.take(all_times.len() as int) == all_times);
    assert(all_attributes.take(all_attributes.len() as int) == all_attributes);
    assert(all_relationships.take(all_relationships.len() as int) == all_relationships);
    proof {
        written_texts(event_attribute_texts(models));
        written_texts(event_relationship_texts(models));
    }
    let attributes = match nested_column(attribute_outcomes) {
        Ok(attributes) => attributes,
        Err(message) => {
            return Err(message);
        },
    };
    let relationships = match nested_column(relationship_outcomes) {
        Ok(relationships) => relationships,
        Err(message) => {
            return Err(message);
        },
    };
    let table = ArrowTable {
        names: vec![COL_ID, COL_TYPE, COL_TIME, COL_ATTRIBUTES, COL_RELATIONSHIPS],
        columns: vec![ids, types, times, attributes, relationships],
    };
    proof {
        let frame = event_frame(models);
        assert(table.names.deep_view() == frame.names);
        assert(table.columns.deep_view() == frame.columns);
    }
    Ok(table)
}

/// The table of objects by its columns.
pub fn table_of_objects(objects: &Vec<Object>) -> (r: Result<ArrowTable, String>)
    ensures
        r is Ok,
        r->Ok_0.deep_view() == object_frame(objects.deep_view()),
{
    let ghost models = objects.deep_view();
    let ghost all_ids = models.map_values(|o: ObjectModel| o.id);
    let ghost all_types = models.map_values(|o: ObjectModel| o.object_type);
    let ghost all_attributes = written(object_attribute_texts(models));
    let ghost all_relationships = written(object_relationship_texts(models));
    let mut ids: Vec<String> = Vec::new();
    let mut types: Vec<String> = Vec::new();
    let mut attribute_outcomes: Vec<Result<String, String>> = Vec::new();
    let mut relationship_outcomes: Vec<Result<String, String>> = Vec::new();
    let mut i: usize = 0;
    while i < objects.len()
        invariant
            i <= objects@.len(),
            models == objects.deep_view(),
            all_ids == models.map_values(|o: ObjectModel| o.id),
            all_types == models.map_values(|o: ObjectModel| o.object_type),
            all_attributes == written(object_attribute_texts(models)),
            all_relationships == written(object_relationship_texts(models)),
            ids.deep_view() == all_ids.take(i as int),
            types.deep_view() == all_types.take(i as int),
            text_outcomes(attribute_outcomes@) == all_attributes.take(i as int),
            text_outcomes(relationship_outcomes@) == all_relationships.take(i as int),
        decreases objects@.len() - i,
    {
        let object = &objects[i];
        push_text(&mut ids, object.id.clone());
        push_text(&mut types, object.object_type.clone());
        push_outcome(&mut attribute_outcomes, object_attributes_json(&object.attributes));
        push_outcome(&mut relationship_outcomes, relationships_json(&object.relationships));
        i += 1;
    }
    assert(all_ids.take(all_ids.len() as int) == all_ids);
    assert(all_types.take(all_types.len() as int) == all_types);
    assert(all_attributes.take(all_attributes.len() as int) == all_attributes);
    assert(all_relationships.take(all_relationships.len() as int) == all_relationships);
    proof {
        written_texts(object_attribute_texts(models));
        written_texts(object_relationship_texts(models));
    }
    let attributes = match nested_column(attribute_outcomes) {
        Ok(attributes) => attributes,
        Err(message) => {
            return Err(message);
        },
    };
    let relationships = match nested_column(relationship_outcomes) {
        Ok(relationships) => relationships,
        Err(message) => {
            return Err(message);
        },
    };
    let table = ArrowTable {
        names: vec![COL_ID, COL_TYPE, COL_ATTRIBUTES, COL_RELATIONSHIPS],
        columns: vec![ids, types, attributes, relationships],
    };
    proof {
        let frame = object_frame(models);
        assert(table.names.deep_view() == frame.names);
        assert(table.columns.deep_view() == frame.columns);
    }
    Ok(table)
}

/// Whether the table with the given name, where there is one, can be put into Arrow columns.
pub fn table_fits(native: &NativeOcel, name: &str) -> (r: bool)
    ensures
        r == frame_fits(table_frame(native.deep_view(), name@)),
{
    let table = if same_text(name, TABLE_EVENT_TYPES) {
        table_of_definitions(&native.metadata.event_types)
    } else if same_text(name, TABLE_OBJECT_TYPES) {
        table_of_definitions(&native.metadata.object_types)
    } else if same_text(name, TABLE_EVENTS) {
        table_of_events(&native.ocel.events)
    } else if same_text(name, TABLE_OBJECTS) {
        table_of_objects(&native.ocel.objects)
    } else {
        return true;
    };
    match table {
        Ok(table) => all_columns_fit(&table.columns),
        Err(_) => true,
    }
}

/// The Arrow IPC stream of type definitions.
pub fn arrow_for_type_definitions(definitions: &Vec<TypeDefinition>) -> (r: Result<Vec<u8>, String>)
    requires
        columns_fit(definition_frame(definitions.deep_view()).columns),
    ensures
        r is Ok,
        r->Ok_0@ == frame_bytes(definition_frame(definitions.deep_view())),
{
    proof {
        column_names_fit();
        definition_frames_are_well_shaped(definitions.deep_view());
    }
    match table_of_definitions(definitions) {
        Ok(table) => write_arrow_ipc(table.names, table.columns),
        Err(message) => Err(message),
    }
}

/// The Arrow IPC stream of the events of a log.
pub fn arrow_for_events(native: &NativeOcel) -> (r: Result<Vec<u8>, String>)
    requires
        columns_fit(event_frame(native.deep_view().ocel.events).columns),
    ensures
        r is Ok,
        r->Ok_0@ == frame_bytes(event_frame(native.deep_view().ocel.events)),
{
    proof {
        column_names_fit();
        event_frames_are_well_shaped(native.deep_view().ocel.events);
    }
    match table_of_events(&native.ocel.events) {
        Ok(table) => write_arrow_ipc(table.names, table.columns),
        Err(message) => Err(message),
    }
}

/// The Arrow IPC stream of the objects of a log.
pub fn arrow_for_objects(native: &NativeOcel) -> (r: Result<Vec<u8>, String>)
    requires
        columns_fit(object_frame(native.deep_view().ocel.objects).columns),
    ensures
        r is Ok,
        r->Ok_0@ == frame_bytes(object_frame(native.deep_view().ocel.objects)),
{
    proof {
        column_names_fit();
        object_frames_are_well_shaped(native.deep_view().ocel.objects);
    }
    match table_of_objects(&native.ocel.objects) {
        Ok(table) => write_arrow_ipc(table.names, table.columns),
        Err(message) => Err(message),
    }
}

/// The Arrow IPC stream of the table with the given name.
pub fn table_arrow_ipc(native: &NativeOcel, name: &str) -> (r: Result<Vec<u8>, String>)
    requires
        frame_fits(table_frame(native.deep_view(), name@)),
    ensures
        byte_outcome(r) == frame_stream(table_frame(native.deep_view(), name@)),
{
    if same_text(name, TABLE_EVENT_TYPES) {
        arrow_for_type_definitions(&native.metadata.event_types)
    } else if same_text(name, TABLE_OBJECT_TYPES) {
        arrow_for_type_definitions(&native.metadata.object_types)
    } else if same_text(name, TABLE_EVENTS) {
        arrow_for_events(native)
    } else if same_text(name, TABLE_OBJECTS) {
        arrow_for_objects(native)
    } else {
        Err(
            joined(
                "Native OCEL table '",
                name,
                "' is not available. Available native collections: event_types, object_types, events, objects.",
            ),
        )
    }
}

/// The Arrow IPC stream of the table with the given name, or `None` where a column of it holds
/// more bytes than Arrow's 32-bit offsets can address.
pub fn checked_table_arrow_ipc(native: &NativeOcel, name: &str) -> (r: Option<
    Result<Vec<u8>, String>,
>)
    ensures
        match r {
            Some(outcome) => {
                &&& frame_fits(table_frame(native.deep_view(), name@))
                &&& byte_outcome(outcome) == frame_stream(table_frame(native.deep_view(), name@))
            },
            None => !frame_fits(table_frame(native.deep_view(), name@)),
        },
{
    if table_fits(native, name) {
        Some(table_arrow_ipc(native, name))
    } else {
        None
    }
}

/// The number of characters in all the names.
pub open spec fn name_chars(names: Seq<Seq<char>>) -> nat
    decreases names.len(),
{
    if names.len() == 0 {
        0
    } else {
        name_chars(names.drop_last()) + names.last().len()
    }
}

/// A character takes four bytes at most, so names of few enough characters make a schema.
pub proof fn short_names_fit(names: Seq<Seq<char>>)
    requires
        4 * name_chars(names) + 256 * names.len() <= i32::MAX,
    ensures
        names_fit(names),
{
    name_bytes_bound(names);
}

proof fn name_bytes_bound(names: Seq<Seq<char>>)
    ensures
        column_bytes(names) <= 4 * name_chars(names),
    decreases names.len(),
{
    if names.len() > 0 {
        name_bytes_bound(names.drop_last());
        text_bytes_bound(names.last());
    }
}

proof fn text_bytes_bound(text: Seq<char>)
    ensures
        encode_utf8(text).len() <= 4 * text.len(),
    decreases text.len(),
{
    if text.len() > 0 {
        text_bytes_bound(text.drop_first());
    }
}

proof fn definition_frames_are_well_shaped(definitions: Seq<TypeModel>)
    ensures
        well_shaped(
            definition_frame(definitions).names,
            definition_frame(definitions).columns,
        ),
{
}

proof fn event_frames_are_well_shaped(events: Seq<EventModel>)
    ensures
        well_shaped(event_frame(events).names, event_frame(events).columns),
{
}

proof fn object_frames_are_well_shaped(objects: Seq<ObjectModel>)
    ensures
        well_shaped(object_frame(objects).names, object_frame(objects).columns),
{
}

/// Every table that there is makes a batch that Arrow accepts.
pub proof fn frames_are_well_shaped(native: NativeModel, name: Seq<char>)
    ensures
        table_frame(native, name) matches Ok(table) ==> well_shaped(table.names, table.columns),
{
    definition_frames_are_well_shaped(native.metadata.event_types);
    definition_frames_are_well_shaped(native.metadata.object_types);
    event_frames_are_well_shaped(native.ocel.events);
    object_frames_are_well_shaped(native.ocel.objects);
}

/// Every cell of the rows holds the text of the same place in the columns.
pub open spec fn rows_match_columns(
    rows: Seq<Seq<Option<Seq<char>>>>,
    columns: Seq<Seq<Seq<char>>>,
) -> bool {
    &&& forall|c: int| 0 <= c < columns.len() ==> (#[trigger] columns[c]).len() == rows.len()
    &&& forall|r: int, c: int|
        0 <= r < rows.len() && 0 <= c < columns.len() ==> #[trigger] rows[r][c] == Some(
            columns[c][r],
        )
}

/// The two forms of a table agree: there are rows exactly where there are columns, and every cell
/// of the rows holds the text of the same place in the columns.
pub proof fn rows_agree_with_columns(native: NativeModel, name: Seq<char>)
    ensures
        table_rows(native, name) is Some <==> table_frame(native, name) is Ok,
        table_frame(native, name) matches Ok(table) ==> rows_match_columns(
            table_rows(native, name)->0,
            table.columns,
        ),
{
}

/// A listed table of a log can be put into columns: they have the names that its definition lists
/// and as many texts as it has rows, and make a batch that Arrow accepts.
pub proof fn listed_tables_make_batches(native: NativeModel, i: int)
    requires
        native.well_formed(),
        0 <= i < native.metadata.tables.len(),
    ensures
        ({
            let listed = native.metadata.tables[i];
            let table = table_frame(native, listed.name)->Ok_0;
            &&& table_frame(native, listed.name) is Ok
            &&& table.names == listed.columns.map_values(|c: ColumnModel| c.name)
            &&& well_shaped(table.names, table.columns)
            &&& table.columns[0].len() == listed.row_count
        }),
{
    listed_tables_have_their_rows(native, i);
    table_names_differ();
    let listed = native.metadata.tables[i];
    rows_agree_with_columns(native, listed.name);
    frames_are_well_shaped(native, listed.name);
    assert(native.metadata.tables.len() == 4);
    let names = listed.columns.map_values(|c: ColumnModel| c.name);
    if i == 0 || i == 1 {
        assert(names == type_column_names());
    } else if i == 2 {
        assert(names == event_column_names());
    } else {
        assert(names == object_column_names());
    }
}

/// Exactly the listed tables of a log have streams.
pub proof fn exactly_listed_tables_have_streams(native: NativeModel, name: Seq<char>)
    requires
        native.well_formed(),
    ensures
        frame_stream(table_frame(native, name)) is Ok <==> exists|i: int|
            0 <= i < native.metadata.tables.len() && #[trigger] native.metadata.tables[i].name == name,
{
    let tables = native.metadata.tables;
    assert(tables.len() == 4);
    assert(tables[0].name == TABLE_EVENT_TYPES@);
    assert(tables[1].name == TABLE_OBJECT_TYPES@);
    assert(tables[2].name == TABLE_EVENTS@);
    assert(tables[3].name == TABLE_OBJECTS@);
}

} // verus!

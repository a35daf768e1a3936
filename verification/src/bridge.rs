//! The requests of a host: raw bytes and numbers in, handles and bytes or an error message out.
use vstd::prelude::*;
use vstd::utf8::{decode_utf8, encode_utf8, valid_utf8};

use crate::arrow::{frame_stream, listed_tables_make_batches, table_frame};
use crate::json::{json_text, spec_document, spec_json};
use crate::metadata::{native_ocel, NativeOcel};
use crate::ocel::Ocel;
use crate::query::{
    answer_fits, checked_query_arrow_ipc, query_outcome, query_stream, QueryModel, QueryRequest,
};
use crate::registry::{native_at, registry_view, with_native, Registry, RegistryModel};
use crate::rows::{
    listed_tables_have_their_rows, page_json, pages_of_listed_tables, rows_document, table_rows,
    table_rows_json, window,
};
use crate::text::{
    ascii_lowercase, byte_outcome, lower_text, lower_text_idempotent, prefixed, same_text,
    text_outcome,
};

verus! {

/// The file formats that a log can be read from.
#[derive(Clone, Copy, Debug, PartialEq, Eq)]
pub enum ImportFormat {
    Json,
    Xml,
    Sqlite,
}

/// The file format that a name stands for, in any case.
pub open spec fn format_of(name: Seq<char>) -> Option<ImportFormat> {
    let lowered = lower_text(name);
    if lowered == "json"@ || lowered == "jsonocel"@ {
        Some(ImportFormat::Json)
    } else if lowered == "xml"@ || lowered == "xmlocel"@ {
        Some(ImportFormat::Xml)
    } else if lowered == "sqlite"@ || lowered == "sqlite3"@ || lowered == "db"@ || lowered
        == "db3"@ {
        Some(ImportFormat::Sqlite)
    } else {
        None
    }
}

/// The message on a file that could not be read.
pub open spec fn import_failure_text(format: ImportFormat, detail: Seq<char>) -> Seq<char> {
    match format {
        ImportFormat::Json => "Rust OCEL JSON import failed: "@ + detail,
        ImportFormat::Xml => "Rust OCEL XML import panicked."@,
        ImportFormat::Sqlite => "Rust OCEL SQLite import failed: "@ + detail,
    }
}

/// The text of the error with which `String::from_utf8` refuses bytes.
pub uninterp spec fn utf8_refusal(bytes: Seq<u8>) -> Seq<char>;

/// The text that bytes encode, or why they encode none.
pub open spec fn utf8_text(bytes: Seq<u8>) -> Result<Seq<char>, Seq<char>> {
    if valid_utf8(bytes) {
        Ok(decode_utf8(bytes))
    } else {
        Err("Expected UTF-8 data from Java: "@ + utf8_refusal(bytes))
    }
}

/// What answers a request for the description of a log.
pub open spec fn spec_answer(registry: Option<RegistryModel>, handle: i64) -> Result<
    Seq<u8>,
    Seq<char>,
> {
    match native_at(registry, handle) {
        Ok(native) => Ok(encode_utf8(json_text(spec_document(native.deep_view())))),
        Err(message) => Err(message),
    }
}

/// What answers a request for a page of a table.
pub open spec fn page_answer(
    registry: Option<RegistryModel>,
    handle: i64,
    name: Seq<u8>,
    offset: i64,
    limit: i32,
) -> Result<Seq<u8>, Seq<char>> {
    match utf8_text(name) {
        Err(message) => Err(message),
        Ok(table) => if offset < 0 || limit < 0 {
            Err("Offset and limit must be non-negative."@)
        } else {
            match native_at(registry, handle) {
                Err(message) => Err(message),
                Ok(native) => page_json(
                    native.deep_view(),
                    table,
                    offset as usize as int,
                    limit as int,
                ),
            }
        },
    }
}

/// What answers a query of the log behind a handle.
pub open spec fn query_answer(
    registry: Option<RegistryModel>,
    handle: i64,
    request: Result<QueryModel, Seq<char>>,
) -> Result<Seq<u8>, Seq<char>> {
    match native_at(registry, handle) {
        Err(message) => Err(message),
        Ok(native) => query_stream(native.deep_view(), request),
    }
}

/// The table that answers a query of the log behind a handle can be put into Arrow columns.
pub open spec fn query_answer_fits(
    registry: Option<RegistryModel>,
    handle: i64,
    request: Result<QueryModel, Seq<char>>,
) -> bool {
    match native_at(registry, handle) {
        Err(_) => true,
        Ok(native) => answer_fits(native.deep_view(), request),
    }
}

/// `String::from_utf8` accepts exactly valid UTF-8, yields the text that the bytes encode, and else
/// fails with a text that depends on the bytes alone.
#[verifier::external_body]
fn string_from_utf8(bytes: Vec<u8>) -> (r: Result<String, String>)
    ensures
        match r {
            Ok(text) => valid_utf8(bytes@) && text@ == decode_utf8(bytes@),
            Err(message) => !valid_utf8(bytes@) && message@ == utf8_refusal(bytes@),
        },
{
    String::from_utf8(bytes).map_err(|err| err.to_string())
}

/// The text that bytes from the host encode.
pub fn read_utf8(bytes: Vec<u8>) -> (r: Result<String, String>)
    ensures
        text_outcome(r) == utf8_text(bytes@),
{
    match string_from_utf8(bytes) {
        Ok(text) => Ok(text),
        Err(message) => Err(prefixed("Expected UTF-8 data from Java: ", message.as_str())),
    }
}

/// The file format that a name stands for.
pub fn import_format(format: &str) -> (r: Result<ImportFormat, String>)
    ensures
        match r {
            Ok(known) => format_of(format@) == Some(known),
            Err(message) => {
                &&& format_of(format@) is None
                &&& message@ == "Unsupported OCEL format for Rust native reader: "@ + format@
            },
        },
{
    let lowered = ascii_lowercase(format);
    let name = lowered.as_str();
    if same_text(name, "json") || same_text(name, "jsonocel") {
        Ok(ImportFormat::Json)
    } else if same_text(name, "xml") || same_text(name, "xmlocel") {
        Ok(ImportFormat::Xml)
    } else if same_text(name, "sqlite") || same_text(name, "sqlite3") || same_text(name, "db")
        || same_text(name, "db3") {
        Ok(ImportFormat::Sqlite)
    } else {
        Err(prefixed("Unsupported OCEL format for Rust native reader: ", format))
    }
}

/// The message on a file that could not be read.
pub fn import_failure(format: ImportFormat, detail: &str) -> (r: String)
    ensures
        r@ == import_failure_text(format, detail@),
{
    match format {
        ImportFormat::Json => prefixed("Rust OCEL JSON import failed: ", detail),
        ImportFormat::Xml => "Rust OCEL XML import panicked.".to_string(),
        ImportFormat::Sqlite => prefixed("Rust OCEL SQLite import failed: ", detail),
    }
}

/// The nanoseconds, or the greatest number of them that can be told.
pub fn told_nanos(nanos: u128) -> (r: u64)
    ensures
        r == if nanos <= u64::MAX {
            nanos as int
        } else {
            u64::MAX as int
        },
{
    if nanos <= u64::MAX as u128 {
        nanos as u64
    } else {
        u64::MAX
    }
}

/// Registers a log that has been read, with its metadata and the time that reading took.
pub fn load_native(registry: &mut Registry, ocel: Ocel, nanos: u128) -> (r: i64)
    ensures
        r == old(registry)@.next,
        exists|native: NativeOcel|
            {
                &&& native.ocel == ocel
                &&& native.deep_view().well_formed()
                &&& native.load_nanos == if nanos <= u64::MAX {
                    nanos as int
                } else {
                    u64::MAX as int
                }
                &&& final(registry)@ == #[trigger] old(registry)@.registered(native)
            },
        old(registry)@.well_formed() && old(registry)@.next < i64::MAX
            ==> final(registry)@.well_formed(),
{
    let native = native_ocel(ocel, told_nanos(nanos));
    registry.register(native)
}

/// Frees a handle; one that is not positive or not in use is left alone.
pub fn free_native(registry: &mut Registry, handle: i64)
    ensures
        final(registry)@ == old(registry)@.freed(handle),
        old(registry)@.well_formed() ==> final(registry)@.well_formed(),
{
    registry.free(handle);
}

/// The description of the log behind a handle.
pub fn spec_json_native(registry: Option<&Registry>, handle: i64) -> (r: Result<Vec<u8>, String>)
    ensures
        byte_outcome(r) == spec_answer(registry_view(registry), handle),
{
    match with_native(registry, handle) {
        Ok(native) => spec_json(native),
        Err(message) => Err(message),
    }
}

/// The stream that answers a parsed query of the log behind a handle, or `None` where a column of
/// the table holds more bytes than Arrow's 32-bit offsets can address.
pub fn query_arrow_ipc_native(
    registry: Option<&Registry>,
    handle: i64,
    request: Result<QueryRequest, String>,
) -> (r: Option<Result<Vec<u8>, String>>)
    ensures
        ({
            let query = query_outcome(request);
            match r {
                Some(outcome) => {
                    &&& query_answer_fits(registry_view(registry), handle, query)
                    &&& byte_outcome(outcome) == query_answer(
                        registry_view(registry),
                        handle,
                        query,
                    )
                },
                None => !query_answer_fits(registry_view(registry), handle, query),
            }
        }),
{
    match with_native(registry, handle) {
        Ok(native) => checked_query_arrow_ipc(native, request),
        Err(message) => Some(Err(message)),
    }
}

/// A page of a table of the log behind a handle.
pub fn table_rows_json_native(
    registry: Option<&Registry>,
    handle: i64,
    name: Vec<u8>,
    offset: i64,
    limit: i32,
) -> (r: Result<Vec<u8>, String>)
    ensures
        byte_outcome(r) == page_answer(registry_view(registry), handle, name@, offset, limit),
{
    let table = match read_utf8(name) {
        Ok(table) => table,
        Err(message) => {
            return Err(message);
        },
    };
    if offset < 0 || limit < 0 {
        return Err("Offset and limit must be non-negative.".to_string());
    }
    match with_native(registry, handle) {
        Ok(native) => table_rows_json(native, table.as_str(), offset as usize, limit as usize),
        Err(message) => Err(message),
    }
}

/// A format name stands for the same format in any case.
pub proof fn format_ignores_case(name: Seq<char>)
    ensures
        format_of(lower_text(name)) == format_of(name),
{
    lower_text_idempotent(name);
}

/// Every log in a registry is served under its handle: it is described, a page of a listed table
/// holds the rows of the window, and a query of the table is answered by its stream.
pub proof fn known_log_is_served(
    registry: RegistryModel,
    handle: i64,
    i: int,
    name: Seq<u8>,
    offset: i64,
    limit: i32,
)
    requires
        registry.well_formed(),
        registry.natives.contains_key(handle),
        0 <= i < registry.natives[handle].deep_view().metadata.tables.len(),
        valid_utf8(name),
        decode_utf8(name) == registry.natives[handle].deep_view().metadata.tables[i].name,
        offset >= 0,
        limit >= 0,
    ensures
        ({
            let model = registry.natives[handle].deep_view();
            let table = model.metadata.tables[i].name;
            &&& spec_answer(Some(registry), handle) == Ok::<Seq<u8>, Seq<char>>(
                encode_utf8(json_text(spec_document(model))),
            )
            &&& page_answer(Some(registry), handle, name, offset, limit) == Ok::<
                Seq<u8>,
                Seq<char>,
            >(
                encode_utf8(
                    json_text(
                        rows_document(
                            window(table_rows(model, table)->0, offset as usize as int, limit as int),
                        ),
                    ),
                ),
            )
            &&& query_answer(Some(registry), handle, Ok(QueryModel { operation: None, table }))
                == frame_stream(table_frame(model, table))
            &&& frame_stream(table_frame(model, table)) is Ok
        }),
{
    let model = registry.natives[handle].deep_view();
    listed_tables_have_their_rows(model, i);
    pages_of_listed_tables(model, i, offset as usize as int, limit as int);
    listed_tables_make_batches(model, i);
}

/// A log that has been registered is known under the handle that it got, and stays so until that
/// handle is freed.
pub proof fn registered_log_stays_known(
    registry: RegistryModel,
    native: NativeOcel,
    other: NativeOcel,
    handle: i64,
)
    requires
        registry.well_formed(),
        registry.next < i64::MAX,
    ensures
        ({
            let after = registry.registered(native);
            let known = Ok::<NativeOcel, Seq<char>>(native);
            &&& native_at(Some(after), registry.next) == known
            &&& native_at(Some(after.registered(other)), registry.next) == known
            &&& handle != registry.next ==> native_at(Some(after.freed(handle)), registry.next)
                == known
        }),
{
}

/// After its handle has been freed, nothing is served under it.
pub proof fn freed_log_is_not_served(
    registry: RegistryModel,
    handle: i64,
    name: Seq<u8>,
    offset: i64,
    limit: i32,
    request: Result<QueryModel, Seq<char>>,
)
    ensures
        ({
            let after = Some(registry.freed(handle));
            &&& spec_answer(after, handle) is Err
            &&& page_answer(after, handle, name, offset, limit) is Err
            &&& query_answer(after, handle, request) is Err
        }),
{
}

} // verus!

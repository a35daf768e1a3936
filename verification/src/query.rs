//! Query requests: which table they ask for, and the stream that answers them.
use vstd::prelude::*;

use crate::arrow::{frame_fits, frame_stream, table_arrow_ipc, table_fits, table_frame};
use crate::metadata::{NativeModel, NativeOcel};
use crate::text::{byte_outcome, prefixed, same_text, text_outcome};

verus! {

/// The one operation that a query can ask for.
pub const OPERATION_TABLE: &'static str = "ocel.query.table";

/// A query: the operation, where it is named, and the table.
#[derive(Debug, PartialEq, Eq)]
pub struct QueryRequest {
    pub operation: Option<String>,
    pub table: String,
}

/// What a query holds.
pub struct QueryModel {
    pub operation: Option<Seq<char>>,
    pub table: Seq<char>,
}

impl DeepView for QueryRequest {
    type V = QueryModel;

    open spec fn deep_view(&self) -> QueryModel {
        QueryModel { operation: self.operation.deep_view(), table: self.table@ }
    }
}

/// What parsing a query yields, as characters.
pub open spec fn query_outcome(r: Result<QueryRequest, String>) -> Result<QueryModel, Seq<char>> {
    match r {
        Ok(request) => Ok(request.deep_view()),
        Err(message) => Err(message@),
    }
}

/// The table that a parsed query asks for, or why it cannot be answered.
pub open spec fn query_target(request: Result<QueryModel, Seq<char>>) -> Result<
    Seq<char>,
    Seq<char>,
> {
    match request {
        Err(message) => Err("Could not parse native OCEL query JSON: "@ + message),
        Ok(query) => match query.operation {
            Some(operation) => if operation == OPERATION_TABLE@ {
                Ok(query.table)
            } else {
                Err("Unsupported native OCEL query operation: "@ + operation)
            },
            None => Ok(query.table),
        },
    }
}

/// The table that answers a query can be put into Arrow columns.
pub open spec fn answer_fits(
    native: NativeModel,
    request: Result<QueryModel, Seq<char>>,
) -> bool {
    match query_target(request) {
        Ok(name) => frame_fits(table_frame(native, name)),
        Err(_) => true,
    }
}

/// The stream that answers a query, or why there is none.
pub open spec fn query_stream(native: NativeModel, request: Result<QueryModel, Seq<char>>) -> Result<
    Seq<u8>,
    Seq<char>,
> {
    match query_target(request) {
        Ok(name) => frame_stream(table_frame(native, name)),
        Err(message) => Err(message),
    }
}

/// The table that a parsed query asks for, or why it cannot be answered.
pub fn requested_table(request: &Result<QueryRequest, String>) -> (r: Result<String, String>)
    ensures
        text_outcome(r) == query_target(query_outcome(*request)),
{
    match request {
        Err(message) => Err(
            prefixed("Could not parse native OCEL query JSON: ", message.as_str()),
        ),
        Ok(query) => match &query.operation {
            Some(operation) => if same_text(operation.as_str(), OPERATION_TABLE) {
                Ok(query.table.clone())
            } else {
                Err(prefixed("Unsupported native OCEL query operation: ", operation.as_str()))
            },
            None => Ok(query.table.clone()),
        },
    }
}

/// The Arrow IPC stream that answers a query.
pub fn query_arrow_ipc(native: &NativeOcel, request: Result<QueryRequest, String>) -> (r: Result<
    Vec<u8>,
    String,
>)
    requires
        answer_fits(native.deep_view(), query_outcome(request)),
    ensures
        byte_outcome(r) == query_stream(native.deep_view(), query_outcome(request)),
{
    match requested_table(&request) {
        Ok(name) => table_arrow_ipc(native, name.as_str()),
        Err(message) => Err(message),
    }
}

/// The Arrow IPC stream that answers a query, or `None` where a column of the table holds more
/// bytes than Arrow's 32-bit offsets can address.
pub fn checked_query_arrow_ipc(
    native: &NativeOcel,
    request: Result<QueryRequest, String>,
) -> (r: Option<Result<Vec<u8>, String>>)
    ensures
        match r {
            Some(outcome) => {
                &&& answer_fits(native.deep_view(), query_outcome(request))
                &&& byte_outcome(outcome) == query_stream(
                    native.deep_view(),
                    query_outcome(request),
                )
            },
            None => !answer_fits(native.deep_view(), query_outcome(request)),
        },
{
    let fits = match requested_table(&request) {
        Ok(name) => table_fits(native, name.as_str()),
        Err(_) => true,
    };
    if fits {
        Some(query_arrow_ipc(native, request))
    } else {
        None
    }
}

/// A query that names no operation is answered as one that names the operation on tables.
pub proof fn operation_is_optional(native: NativeModel, table: Seq<char>)
    ensures
        query_stream(native, Ok(QueryModel { operation: None, table })) == query_stream(
            native,
            Ok(QueryModel { operation: Some(OPERATION_TABLE@), table }),
        ),
{
}

} // verus!

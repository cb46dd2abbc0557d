//! The `dns list` command: the records found become one JSON array.

use serde_json::Value;
use vstd::prelude::*;
use vstd::string::*;

use crate::json::{array_value, json_of, Json};

verus! {

/// Whether every row could be serialized.
pub open spec fn all_rows_serialized(rows: Seq<Result<Value, String>>) -> bool {
    forall|i: int| 0 <= i < rows.len() ==> rows[i] is Ok
}

/// The message for a row that could not be serialized.
pub open spec fn row_failure_text(cause: Seq<char>) -> Seq<char> {
    "failed to serialize DNS records: "@ + cause
}

/// Builds the result of `dns list` from the serialized rows: one JSON array of all of them in
/// order, or, where some row failed, a message with the cause of the first that did.
pub fn list_result(rows: Vec<Result<Value, String>>) -> (result: Result<Value, String>)
    ensures
        result is Ok <==> all_rows_serialized(rows@),
        result matches Ok(value) ==> json_of(value) == Json::Array(
            rows@.map_values(|row: Result<Value, String>| json_of(row->Ok_0)),
        ),
        result matches Err(message) ==> exists|i: int|
            #![trigger rows@[i]]
            0 <= i < rows.len() && all_rows_serialized(rows@.take(i)) && (
            rows@[i] matches Err(cause) && message@ == row_failure_text(cause@)),
{
    let mut items: Vec<Value> = Vec::new();
    for row in iter: rows
        invariant
            iter.seq() == rows@,
            items.len() == iter.index(),
            all_rows_serialized(rows@.take(iter.index())),
            forall|i: int|
                0 <= i < items.len() ==> rows@[i] == Ok::<Value, String>(#[trigger] items@[i]),
    {
        match row {
            Ok(value) => {
                proof {
                    assert(rows@[iter.index()] == Ok::<Value, String>(value));
                }
                items.push(value);
            },
            Err(cause) => {
                let mut message = "failed to serialize DNS records: ".to_owned();
                message.append(cause.as_str());
                return Err(message);
            },
        }
    }
    proof {
        assert(rows@.take(rows@.len() as int) =~= rows@);
        assert(items@.map_values(|item: Value| json_of(item)) =~= rows@.map_values(
            |row: Result<Value, String>| json_of(row->Ok_0),
        ));
    }
    Ok(array_value(items))
}

} // verus!
